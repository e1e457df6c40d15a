//! The two hosts' ingress rules: which handles a host agrees to open.
//!
//! The engine sees only handles it was given; a host serves a handle only
//! when it lies under the place the user handed over. Resolving a handle and
//! reading it are the host's I/O; deciding whether it may be read is here.

use vstd::prelude::*;

use crate::audit::{first_index_of, lemma_first_index_bounds};
use crate::classify::slice_range;
use crate::item::{name_class, Item, ItemView};
use crate::text::{chars_of, eq_chars, push_str};

verus! {

/// A segment kept as a component: neither empty nor `.`.
pub open spec fn kept(seg: Seq<char>) -> Seq<Seq<char>> {
    if seg.len() == 0 || seg == seq!['.'] {
        Seq::empty()
    } else {
        seq![seg]
    }
}

/// The named components of a Unix path, front to back: every segment
/// between slashes that is neither empty nor `.`.
pub open spec fn named_components(s: Seq<char>) -> Seq<Seq<char>>
    decreases s.len(),
{
    if s.len() == 0 {
        Seq::empty()
    } else {
        let k = first_index_of(s, '/');
        if k < 0 {
            kept(s)
        } else {
            proof {
                lemma_first_index_bounds(s, '/');
            }
            kept(s.take(k)) + named_components(s.skip(k + 1))
        }
    }
}

/// What leads a path: the root `/`, or `.` for a relative path that starts
/// with the current directory, or nothing.
pub open spec fn leading_component(s: Seq<char>) -> Seq<Seq<char>> {
    if s.len() > 0 && s[0] == '/' {
        seq![seq!['/']]
    } else if s == seq!['.'] || (s.len() >= 2 && s[0] == '.' && s[1] == '/') {
        seq![seq!['.']]
    } else {
        Seq::empty()
    }
}

/// The components `std::path::Path::components` yields for a Unix path.
pub open spec fn path_components(s: Seq<char>) -> Seq<Seq<char>> {
    leading_component(s) + named_components(s)
}

/// `Path::starts_with`: the components of `base` lead those of `path`.
pub open spec fn path_starts_with(path: Seq<char>, base: Seq<char>) -> bool {
    path_components(base).is_prefix_of(path_components(path))
}

/// `PathBuf::join` of a relative name: a separator goes between unless the
/// base is empty or already ends in one.
pub open spec fn joined(base: Seq<char>, name: Seq<char>) -> Seq<char> {
    if base.len() > 0 && base.last() != '/' {
        base + seq!['/'] + name
    } else {
        base + name
    }
}

pub open spec fn views(v: Seq<Vec<char>>) -> Seq<Seq<char>> {
    v.map_values(|x: Vec<char>| x@)
}

proof fn lemma_first_slash_at(s: Seq<char>, k: int)
    requires
        0 <= k < s.len(),
        s[k] == '/',
        forall|j: int| 0 <= j < k ==> s[j] != '/',
    ensures
        first_index_of(s, '/') == k,
    decreases k,
{
    if k > 0 {
        lemma_first_slash_at(s.drop_first(), k - 1);
    }
}

proof fn lemma_no_slash(s: Seq<char>)
    requires
        forall|j: int| 0 <= j < s.len() ==> s[j] != '/',
    ensures
        first_index_of(s, '/') == -1,
    decreases s.len(),
{
    if s.len() > 0 {
        lemma_no_slash(s.drop_first());
    }
}

/// Append the segment `v[start..end]` when it is kept as a component.
fn push_kept(out: &mut Vec<Vec<char>>, v: &[char], start: usize, end: usize)
    requires
        start <= end <= v.len(),
    ensures
        views(final(out)@) == views(old(out)@) + kept(v@.subrange(start as int, end as int)),
{
    let ghost seg = v@.subrange(start as int, end as int);
    let ghost before = views(out@);
    if end == start || (end == start + 1 && v[start] == '.') {
        proof {
            if end == start + 1 {
                assert(seg =~= seq!['.']);
            }
        }
        assert(kept(seg) =~= Seq::<Seq<char>>::empty());
        assert(views(out@) =~= before + kept(seg));
    } else {
        assert(seg != seq!['.']) by {
            let dot = seq!['.'];
            assert(dot.len() == 1 && dot[0] == '.');
            if end == start + 1 {
                assert(seg[0] == v@[start as int]);
            }
        }
        let part = slice_range(v, start, end);
        out.push(part);
        assert(views(out@) =~= before + kept(seg));
    }
}

/// The named components of `v`, each as its characters.
fn named_parts(v: &[char]) -> (r: Vec<Vec<char>>)
    ensures
        views(r@) == named_components(v@),
{
    let mut out: Vec<Vec<char>> = Vec::new();
    let mut start: usize = 0;
    let mut i: usize = 0;
    assert(v@.subrange(0, v@.len() as int) =~= v@);
    assert(views(out@) =~= Seq::<Seq<char>>::empty());
    while i < v.len()
        invariant
            start <= i <= v.len(),
            forall|j: int| start <= j < i ==> v@[j] != '/',
            views(out@) + named_components(v@.subrange(start as int, v@.len() as int))
                == named_components(v@),
        decreases v.len() - i,
    {
        if v[i] == '/' {
            let ghost rest = v@.subrange(start as int, v@.len() as int);
            let ghost before = views(out@);
            proof {
                lemma_first_slash_at(rest, i - start);
                assert(rest.take(i - start) =~= v@.subrange(start as int, i as int));
                assert(rest.skip(i - start + 1) =~= v@.subrange(i + 1, v@.len() as int));
            }
            push_kept(&mut out, v, start, i);
            proof {
                let seg = v@.subrange(start as int, i as int);
                let rest2 = named_components(v@.subrange(i + 1, v@.len() as int));
                assert(named_components(rest) == kept(seg) + rest2);
                assert(views(out@) + rest2 =~= before + (kept(seg) + rest2));
            }
            start = i + 1;
        }
        i += 1;
    }
    let ghost rest = v@.subrange(start as int, v@.len() as int);
    let ghost before = views(out@);
    proof {
        lemma_no_slash(rest);
    }
    push_kept(&mut out, v, start, v.len());
    proof {
        if rest.len() == 0 {
            assert(kept(rest) =~= Seq::<Seq<char>>::empty());
        }
        assert(named_components(rest) == kept(rest));
        assert(views(out@) =~= before + named_components(rest));
    }
    out
}

/// The components of the path `v`, each as its characters.
fn components(v: &[char]) -> (r: Vec<Vec<char>>)
    ensures
        views(r@) == path_components(v@),
{
    let mut out: Vec<Vec<char>> = Vec::new();
    if v.len() > 0 && v[0] == '/' {
        let mut root: Vec<char> = Vec::new();
        root.push('/');
        out.push(root);
    } else if (v.len() == 1 && v[0] == '.') || (v.len() >= 2 && v[0] == '.' && v[1] == '/') {
        let mut cur: Vec<char> = Vec::new();
        cur.push('.');
        out.push(cur);
    }
    proof {
        if v.len() == 1 && v[0] == '.' {
            assert(v@ =~= seq!['.']);
        }
        assert(views(out@) =~= leading_component(v@));
    }
    let named = named_parts(v);
    let mut i: usize = 0;
    let ghost lead = views(out@);
    while i < named.len()
        invariant
            i <= named.len(),
            lead == leading_component(v@),
            views(named@) == named_components(v@),
            views(out@) == lead + views(named@).take(i as int),
        decreases named.len() - i,
    {
        let part = slice_range(&named[i], 0, named[i].len());
        proof {
            assert(part@ =~= named@[i as int]@);
        }
        let ghost before = views(out@);
        out.push(part);
        proof {
            assert(views(named@)[i as int] == named@[i as int]@);
            assert(views(out@) =~= before.push(part@));
            assert(views(named@).take(i + 1) =~= views(named@).take(i as int).push(part@));
            assert(views(out@) =~= lead + views(named@).take(i + 1));
        }
        i += 1;
    }
    proof {
        assert(views(named@).take(named.len() as int) =~= views(named@));
    }
    out
}

/// `Path::new(path).starts_with(base)`, by components.
pub fn starts_with(path: &str, base: &str) -> (r: bool)
    ensures
        r == path_starts_with(path@, base@),
{
    let pc = components(&chars_of(path));
    let bc = components(&chars_of(base));
    if bc.len() > pc.len() {
        return false;
    }
    let mut i: usize = 0;
    while i < bc.len()
        invariant
            i <= bc.len() <= pc.len(),
            views(pc@) == path_components(path@),
            views(bc@) == path_components(base@),
            forall|j: int| 0 <= j < i ==> views(bc@)[j] == views(pc@)[j],
        decreases bc.len() - i,
    {
        if !eq_chars(&bc[i], &pc[i]) {
            proof {
                assert(views(bc@)[i as int] != views(pc@)[i as int]);
            }
            return false;
        }
        i += 1;
    }
    proof {
        assert(views(bc@) =~= views(pc@).take(bc.len() as int));
    }
    true
}

/// `PathBuf::join` of a relative name.
pub fn join(base: &str, name: &str) -> (r: String)
    ensures
        r@ == joined(base@, name@),
{
    let b = chars_of(base);
    let mut s = String::new();
    push_str(&mut s, base);
    if b.len() > 0 && b[b.len() - 1] != '/' {
        push_str(&mut s, "/");
        proof {
            reveal_strlit("/");
        }
    }
    push_str(&mut s, name);
    proof {
        assert(b@.last() == base@.last());
    }
    s
}

/// A name that is one component: not empty, not `.`, and without a slash.
pub open spec fn is_single_name(n: Seq<char>) -> bool {
    n.len() > 0 && n != seq!['.'] && forall|i: int| 0 <= i < n.len() ==> n[i] != '/'
}

proof fn lemma_no_slash_named(s: Seq<char>)
    requires
        forall|i: int| 0 <= i < s.len() ==> s[i] != '/',
    ensures
        named_components(s) == kept(s),
{
    lemma_no_slash(s);
    if s.len() == 0 {
        assert(kept(s) =~= Seq::<Seq<char>>::empty());
    }
}

/// Splitting at a slash splits the named components.
proof fn lemma_named_concat(x: Seq<char>, y: Seq<char>)
    ensures
        named_components(x + seq!['/'] + y) == named_components(x) + named_components(y),
    decreases x.len(),
{
    let s = x + seq!['/'] + y;
    lemma_first_index_bounds(x, '/');
    let k = first_index_of(x, '/');
    if k < 0 {
        assert forall|j: int| 0 <= j < x.len() implies s[j] != '/' by {
            assert(s[j] == x[j]);
        }
        assert(s[x.len() as int] == '/');
        lemma_first_slash_at(s, x.len() as int);
        assert(s.take(x.len() as int) =~= x);
        assert(s.skip(x.len() as int + 1) =~= y);
        lemma_no_slash_named(x);
        if x.len() == 0 {
            assert(kept(x) =~= Seq::<Seq<char>>::empty());
        }
        assert(named_components(s) =~= kept(x) + named_components(y));
    } else {
        assert forall|j: int| 0 <= j < k implies s[j] != '/' by {
            assert(s[j] == x[j]);
        }
        assert(s[k] == '/');
        lemma_first_slash_at(s, k);
        assert(s.take(k) =~= x.take(k));
        assert(s.skip(k + 1) =~= x.skip(k + 1) + seq!['/'] + y);
        lemma_named_concat(x.skip(k + 1), y);
        assert(named_components(s) =~= kept(x.take(k)) + (named_components(x.skip(k + 1))
            + named_components(y)));
    }
}

/// Joining a single name onto a path adds exactly that name as its last
/// component, so the joined path lies under the one it was joined to.
pub proof fn law_joined_name_lies_under(base: Seq<char>, name: Seq<char>)
    requires
        is_single_name(name),
    ensures
        path_components(joined(base, name)) == path_components(base).push(name),
        path_starts_with(joined(base, name), base),
{
    let j = joined(base, name);
    lemma_no_slash_named(name);
    assert(kept(name) =~= seq![name]);
    if base.len() > 0 && base.last() != '/' {
        lemma_named_concat(base, name);
        assert(j =~= base + seq!['/'] + name);
        assert(j[0] == base[0]);
        if base.len() >= 2 {
            assert(j[1] == base[1]);
        }
        if base =~= seq!['.'] {
            assert(j[1] == '/');
        }
        assert(leading_component(j) == leading_component(base));
    } else if base.len() > 0 {
        let front = base.drop_last();
        assert(base =~= front + seq!['/'] + Seq::<char>::empty());
        lemma_named_concat(front, Seq::<char>::empty());
        assert(named_components(Seq::<char>::empty()) =~= Seq::<Seq<char>>::empty());
        assert(j =~= front + seq!['/'] + name);
        lemma_named_concat(front, name);
        assert(j[0] == base[0]);
        if base.len() >= 2 {
            assert(j[1] == base[1]);
        }
        assert(j != seq!['.']);
        assert(base != seq!['.']);
        assert(leading_component(j) == leading_component(base));
    } else {
        assert(j =~= name);
        assert(named_components(base) =~= Seq::<Seq<char>>::empty());
        if name.len() >= 2 {
            assert(name[1] != '/');
        }
        assert(leading_component(j) =~= Seq::<Seq<char>>::empty());
        assert(leading_component(base) =~= Seq::<Seq<char>>::empty());
    }
    assert(path_components(j) =~= path_components(base).push(name));
    assert(path_components(j).take(path_components(base).len() as int) =~= path_components(base));
}

// ------------------------------------------------------------- hosts ----

pub open spec fn outside_folder_text(handle: Seq<char>) -> Seq<char> {
    handle + " is outside the folder that was handed over"@
}

pub open spec fn not_picked_text(handle: Seq<char>) -> Seq<char> {
    handle + " is not one of the files the picker handed over"@
}

/// The desktop's stand-in for a photo picker: it serves paths under a root
/// the user named.
///
/// A desktop has no out-of-process picker that issues revocable handles, so
/// the handles here are paths. The engine still sees only handles it was
/// given; what is lost is the capability property, not the discipline.
#[derive(Debug)]
pub struct FolderSource {
    root: String,
}

impl FolderSource {
    pub closed spec fn root_path(&self) -> Seq<char> {
        self.root@
    }

    pub fn new(root: String) -> (r: Self)
        ensures
            r.root_path() == root@,
    {
        FolderSource { root }
    }

    pub fn root(&self) -> (r: &str)
        ensures
            r@ == self.root_path(),
    {
        self.root.as_str()
    }

    /// Whether the file behind `handle` may be served, given the handle and
    /// the root each resolved to a canonical path: only when the one lies
    /// under the other. A handle that escaped the scan is a bug worth
    /// catching rather than serving.
    pub fn allows(&self, handle: &str, resolved: &str, resolved_root: &str) -> (r: Result<
        (),
        String,
    >)
        ensures
            r is Ok <==> path_starts_with(resolved@, resolved_root@),
            r matches Err(m) ==> m@ == outside_folder_text(handle@),
    {
        if starts_with(resolved, resolved_root) {
            Ok(())
        } else {
            let mut m = String::new();
            push_str(&mut m, handle);
            push_str(&mut m, " is outside the folder that was handed over");
            Err(m)
        }
    }
}

/// Reads the files a photo picker handed over: copies the picker wrote
/// into the app's own container, under [`picked_dir`].
#[derive(Debug, Default)]
pub struct PhotoSource {
    _private: (),
}

impl PhotoSource {
    pub fn new() -> (r: Self) {
        PhotoSource { _private: () }
    }

    /// Whether `handle` is one of the picker's copies, under `picked`.
    pub fn allows(&self, handle: &str, picked: &str) -> (r: Result<(), String>)
        ensures
            r is Ok <==> path_starts_with(handle@, picked@),
            r matches Err(m) ==> m@ == not_picked_text(handle@),
    {
        if starts_with(handle, picked) {
            Ok(())
        } else {
            let mut m = String::new();
            push_str(&mut m, handle);
            push_str(&mut m, " is not one of the files the picker handed over");
            Err(m)
        }
    }
}

/// Where the picker's copies live: `picked` inside the app's support
/// directory, and nowhere near the user's library.
pub fn picked_dir(app_support: &str) -> (r: String)
    ensures
        r@ == joined(app_support@, "picked"@),
{
    join(app_support, "picked")
}

/// A walked file as an entry of the selection, from its handle, display
/// name and size: nothing for an empty file, which has nothing to save.
pub fn scanned_item(handle: String, name: String, bytes: u64) -> (r: Option<Item>)
    ensures
        r is None <==> bytes == 0,
        r matches Some(it) ==> it@ == (ItemView {
            handle: handle@,
            name: name@,
            bytes,
            class: name_class(name@),
        }),
{
    if bytes == 0 {
        None
    } else {
        Some(Item::new(handle, name, bytes))
    }
}

/// Where the desktop keeps its data: under `$XDG_DATA_HOME` when it is
/// set, else under `$HOME/.local/share`, else in the temporary directory.
/// Never next to the user's photographs.
pub open spec fn desktop_data_dir(
    xdg: Option<Seq<char>>,
    home: Option<Seq<char>>,
    temp: Seq<char>,
) -> Seq<char> {
    match xdg {
        Some(x) => joined(x, "vavlt"@),
        None => match home {
            Some(h) => joined(h, ".local/share/vavlt"@),
            None => joined(temp, "vavlt"@),
        },
    }
}

/// Where the phone build keeps its data off the phone: under
/// `$HOME/.local/share`, else in the temporary directory.
pub open spec fn support_dir(home: Option<Seq<char>>, temp: Seq<char>) -> Seq<char> {
    match home {
        Some(h) => joined(h, ".local/share/vavlt-ios"@),
        None => joined(temp, "vavlt-ios"@),
    }
}

pub open spec fn opt_view(o: Option<&str>) -> Option<Seq<char>> {
    match o {
        Some(s) => Some(s@),
        None => None,
    }
}

/// The desktop's data directory, from the environment's answers.
pub fn data_dir_for(xdg: Option<&str>, home: Option<&str>, temp: &str) -> (r: String)
    ensures
        r@ == desktop_data_dir(opt_view(xdg), opt_view(home), temp@),
{
    match xdg {
        Some(x) => join(x, "vavlt"),
        None => match home {
            Some(h) => join(h, ".local/share/vavlt"),
            None => join(temp, "vavlt"),
        },
    }
}

/// The support directory of the phone build run on a desktop, from the
/// environment's answers.
pub fn app_support_for(home: Option<&str>, temp: &str) -> (r: String)
    ensures
        r@ == support_dir(opt_view(home), temp@),
{
    match home {
        Some(h) => join(h, ".local/share/vavlt-ios"),
        None => join(temp, "vavlt-ios"),
    }
}

} // verus!
