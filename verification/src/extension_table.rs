//! The classifier's tables, fact by fact: which class each known extension
//! claims, and which header types are videos, proved against the
//! classifier one entry at a time.

use vstd::prelude::*;

use crate::classify::{class_from, claimed_class, extension_class, mime_class, name_extension, video_class, AssetClass};
use crate::text::lower_seq;

verus! {

proof fn lemma_extension_jpg()
    ensures
        extension_class("jpg"@) == AssetClass::Jpeg,
{
    reveal_strlit("jpg");
}

proof fn lemma_extension_jpeg()
    ensures
        extension_class("jpeg"@) == AssetClass::Jpeg,
{
    reveal_strlit("jpeg");
    assert("jpeg"@ != "jpg"@) by { reveal_strlit("jpg"); assert("jpeg"@.len() != "jpg"@.len()); }
}

proof fn lemma_extension_jpe()
    ensures
        extension_class("jpe"@) == AssetClass::Jpeg,
{
    reveal_strlit("jpe");
    assert("jpe"@ != "jpg"@) by { reveal_strlit("jpg"); assert("jpe"@[2] != "jpg"@[2]); }
    assert("jpe"@ != "jpeg"@) by { reveal_strlit("jpeg"); assert("jpe"@.len() != "jpeg"@.len()); }
}

proof fn lemma_extension_jfif()
    ensures
        extension_class("jfif"@) == AssetClass::Jpeg,
{
    reveal_strlit("jfif");
    assert("jfif"@ != "jpg"@) by { reveal_strlit("jpg"); assert("jfif"@.len() != "jpg"@.len()); }
    assert("jfif"@ != "jpeg"@) by { reveal_strlit("jpeg"); assert("jfif"@[1] != "jpeg"@[1]); }
    assert("jfif"@ != "jpe"@) by { reveal_strlit("jpe"); assert("jfif"@.len() != "jpe"@.len()); }
}

proof fn lemma_extension_png()
    ensures
        extension_class("png"@) == AssetClass::Png,
{
    reveal_strlit("png");
    assert("png"@ != "jpg"@) by { reveal_strlit("jpg"); assert("png"@[0] != "jpg"@[0]); }
    assert("png"@ != "jpeg"@) by { reveal_strlit("jpeg"); assert("png"@.len() != "jpeg"@.len()); }
    assert("png"@ != "jpe"@) by { reveal_strlit("jpe"); assert("png"@[0] != "jpe"@[0]); }
    assert("png"@ != "jfif"@) by { reveal_strlit("jfif"); assert("png"@.len() != "jfif"@.len()); }
}

proof fn lemma_extension_heic()
    ensures
        extension_class("heic"@) == AssetClass::Heic,
{
    reveal_strlit("heic");
    assert("heic"@ != "jpg"@) by { reveal_strlit("jpg"); assert("heic"@.len() != "jpg"@.len()); }
    assert("heic"@ != "jpeg"@) by { reveal_strlit("jpeg"); assert("heic"@[0] != "jpeg"@[0]); }
    assert("heic"@ != "jpe"@) by { reveal_strlit("jpe"); assert("heic"@.len() != "jpe"@.len()); }
    assert("heic"@ != "jfif"@) by { reveal_strlit("jfif"); assert("heic"@[0] != "jfif"@[0]); }
    assert("heic"@ != "png"@) by { reveal_strlit("png"); assert("heic"@.len() != "png"@.len()); }
}

proof fn lemma_extension_heif()
    ensures
        extension_class("heif"@) == AssetClass::Heic,
{
    reveal_strlit("heif");
    assert("heif"@ != "jpg"@) by { reveal_strlit("jpg"); assert("heif"@.len() != "jpg"@.len()); }
    assert("heif"@ != "jpeg"@) by { reveal_strlit("jpeg"); assert("heif"@[0] != "jpeg"@[0]); }
    assert("heif"@ != "jpe"@) by { reveal_strlit("jpe"); assert("heif"@.len() != "jpe"@.len()); }
    assert("heif"@ != "jfif"@) by { reveal_strlit("jfif"); assert("heif"@[0] != "jfif"@[0]); }
    assert("heif"@ != "png"@) by { reveal_strlit("png"); assert("heif"@.len() != "png"@.len()); }
    assert("heif"@ != "heic"@) by { reveal_strlit("heic"); assert("heif"@[3] != "heic"@[3]); }
}

proof fn lemma_extension_avif()
    ensures
        extension_class("avif"@) == AssetClass::Heic,
{
    reveal_strlit("avif");
    assert("avif"@ != "jpg"@) by { reveal_strlit("jpg"); assert("avif"@.len() != "jpg"@.len()); }
    assert("avif"@ != "jpeg"@) by { reveal_strlit("jpeg"); assert("avif"@[0] != "jpeg"@[0]); }
    assert("avif"@ != "jpe"@) by { reveal_strlit("jpe"); assert("avif"@.len() != "jpe"@.len()); }
    assert("avif"@ != "jfif"@) by { reveal_strlit("jfif"); assert("avif"@[0] != "jfif"@[0]); }
    assert("avif"@ != "png"@) by { reveal_strlit("png"); assert("avif"@.len() != "png"@.len()); }
    assert("avif"@ != "heic"@) by { reveal_strlit("heic"); assert("avif"@[0] != "heic"@[0]); }
    assert("avif"@ != "heif"@) by { reveal_strlit("heif"); assert("avif"@[0] != "heif"@[0]); }
}

proof fn lemma_extension_mp4()
    ensures
        extension_class("mp4"@) == AssetClass::VideoOther,
{
    reveal_strlit("mp4");
    assert("mp4"@ != "jpg"@) by { reveal_strlit("jpg"); assert("mp4"@[0] != "jpg"@[0]); }
    assert("mp4"@ != "jpeg"@) by { reveal_strlit("jpeg"); assert("mp4"@.len() != "jpeg"@.len()); }
    assert("mp4"@ != "jpe"@) by { reveal_strlit("jpe"); assert("mp4"@[0] != "jpe"@[0]); }
    assert("mp4"@ != "jfif"@) by { reveal_strlit("jfif"); assert("mp4"@.len() != "jfif"@.len()); }
    assert("mp4"@ != "png"@) by { reveal_strlit("png"); assert("mp4"@[0] != "png"@[0]); }
    assert("mp4"@ != "heic"@) by { reveal_strlit("heic"); assert("mp4"@.len() != "heic"@.len()); }
    assert("mp4"@ != "heif"@) by { reveal_strlit("heif"); assert("mp4"@.len() != "heif"@.len()); }
    assert("mp4"@ != "avif"@) by { reveal_strlit("avif"); assert("mp4"@.len() != "avif"@.len()); }
}

proof fn lemma_extension_mov()
    ensures
        extension_class("mov"@) == AssetClass::VideoOther,
{
    reveal_strlit("mov");
    assert("mov"@ != "jpg"@) by { reveal_strlit("jpg"); assert("mov"@[0] != "jpg"@[0]); }
    assert("mov"@ != "jpeg"@) by { reveal_strlit("jpeg"); assert("mov"@.len() != "jpeg"@.len()); }
    assert("mov"@ != "jpe"@) by { reveal_strlit("jpe"); assert("mov"@[0] != "jpe"@[0]); }
    assert("mov"@ != "jfif"@) by { reveal_strlit("jfif"); assert("mov"@.len() != "jfif"@.len()); }
    assert("mov"@ != "png"@) by { reveal_strlit("png"); assert("mov"@[0] != "png"@[0]); }
    assert("mov"@ != "heic"@) by { reveal_strlit("heic"); assert("mov"@.len() != "heic"@.len()); }
    assert("mov"@ != "heif"@) by { reveal_strlit("heif"); assert("mov"@.len() != "heif"@.len()); }
    assert("mov"@ != "avif"@) by { reveal_strlit("avif"); assert("mov"@.len() != "avif"@.len()); }
    assert("mov"@ != "mp4"@) by { reveal_strlit("mp4"); assert("mov"@[1] != "mp4"@[1]); }
}

proof fn lemma_extension_m4v()
    ensures
        extension_class("m4v"@) == AssetClass::VideoOther,
{
    reveal_strlit("m4v");
    assert("m4v"@ != "jpg"@) by { reveal_strlit("jpg"); assert("m4v"@[0] != "jpg"@[0]); }
    assert("m4v"@ != "jpeg"@) by { reveal_strlit("jpeg"); assert("m4v"@.len() != "jpeg"@.len()); }
    assert("m4v"@ != "jpe"@) by { reveal_strlit("jpe"); assert("m4v"@[0] != "jpe"@[0]); }
    assert("m4v"@ != "jfif"@) by { reveal_strlit("jfif"); assert("m4v"@.len() != "jfif"@.len()); }
    assert("m4v"@ != "png"@) by { reveal_strlit("png"); assert("m4v"@[0] != "png"@[0]); }
    assert("m4v"@ != "heic"@) by { reveal_strlit("heic"); assert("m4v"@.len() != "heic"@.len()); }
    assert("m4v"@ != "heif"@) by { reveal_strlit("heif"); assert("m4v"@.len() != "heif"@.len()); }
    assert("m4v"@ != "avif"@) by { reveal_strlit("avif"); assert("m4v"@.len() != "avif"@.len()); }
    assert("m4v"@ != "mp4"@) by { reveal_strlit("mp4"); assert("m4v"@[1] != "mp4"@[1]); }
    assert("m4v"@ != "mov"@) by { reveal_strlit("mov"); assert("m4v"@[1] != "mov"@[1]); }
}

proof fn lemma_extension_mkv()
    ensures
        extension_class("mkv"@) == AssetClass::VideoOther,
{
    reveal_strlit("mkv");
    assert("mkv"@ != "jpg"@) by { reveal_strlit("jpg"); assert("mkv"@[0] != "jpg"@[0]); }
    assert("mkv"@ != "jpeg"@) by { reveal_strlit("jpeg"); assert("mkv"@.len() != "jpeg"@.len()); }
    assert("mkv"@ != "jpe"@) by { reveal_strlit("jpe"); assert("mkv"@[0] != "jpe"@[0]); }
    assert("mkv"@ != "jfif"@) by { reveal_strlit("jfif"); assert("mkv"@.len() != "jfif"@.len()); }
    assert("mkv"@ != "png"@) by { reveal_strlit("png"); assert("mkv"@[0] != "png"@[0]); }
    assert("mkv"@ != "heic"@) by { reveal_strlit("heic"); assert("mkv"@.len() != "heic"@.len()); }
    assert("mkv"@ != "heif"@) by { reveal_strlit("heif"); assert("mkv"@.len() != "heif"@.len()); }
    assert("mkv"@ != "avif"@) by { reveal_strlit("avif"); assert("mkv"@.len() != "avif"@.len()); }
    assert("mkv"@ != "mp4"@) by { reveal_strlit("mp4"); assert("mkv"@[1] != "mp4"@[1]); }
    assert("mkv"@ != "mov"@) by { reveal_strlit("mov"); assert("mkv"@[1] != "mov"@[1]); }
    assert("mkv"@ != "m4v"@) by { reveal_strlit("m4v"); assert("mkv"@[1] != "m4v"@[1]); }
}

proof fn lemma_extension_webm()
    ensures
        extension_class("webm"@) == AssetClass::VideoOther,
{
    reveal_strlit("webm");
    assert("webm"@ != "jpg"@) by { reveal_strlit("jpg"); assert("webm"@.len() != "jpg"@.len()); }
    assert("webm"@ != "jpeg"@) by { reveal_strlit("jpeg"); assert("webm"@[0] != "jpeg"@[0]); }
    assert("webm"@ != "jpe"@) by { reveal_strlit("jpe"); assert("webm"@.len() != "jpe"@.len()); }
    assert("webm"@ != "jfif"@) by { reveal_strlit("jfif"); assert("webm"@[0] != "jfif"@[0]); }
    assert("webm"@ != "png"@) by { reveal_strlit("png"); assert("webm"@.len() != "png"@.len()); }
    assert("webm"@ != "heic"@) by { reveal_strlit("heic"); assert("webm"@[0] != "heic"@[0]); }
    assert("webm"@ != "heif"@) by { reveal_strlit("heif"); assert("webm"@[0] != "heif"@[0]); }
    assert("webm"@ != "avif"@) by { reveal_strlit("avif"); assert("webm"@[0] != "avif"@[0]); }
    assert("webm"@ != "mp4"@) by { reveal_strlit("mp4"); assert("webm"@.len() != "mp4"@.len()); }
    assert("webm"@ != "mov"@) by { reveal_strlit("mov"); assert("webm"@.len() != "mov"@.len()); }
    assert("webm"@ != "m4v"@) by { reveal_strlit("m4v"); assert("webm"@.len() != "m4v"@.len()); }
    assert("webm"@ != "mkv"@) by { reveal_strlit("mkv"); assert("webm"@.len() != "mkv"@.len()); }
}

proof fn lemma_extension_dng()
    ensures
        extension_class("dng"@) == AssetClass::Raw,
{
    reveal_strlit("dng");
    assert("dng"@ != "jpg"@) by { reveal_strlit("jpg"); assert("dng"@[0] != "jpg"@[0]); }
    assert("dng"@ != "jpeg"@) by { reveal_strlit("jpeg"); assert("dng"@.len() != "jpeg"@.len()); }
    assert("dng"@ != "jpe"@) by { reveal_strlit("jpe"); assert("dng"@[0] != "jpe"@[0]); }
    assert("dng"@ != "jfif"@) by { reveal_strlit("jfif"); assert("dng"@.len() != "jfif"@.len()); }
    assert("dng"@ != "png"@) by { reveal_strlit("png"); assert("dng"@[0] != "png"@[0]); }
    assert("dng"@ != "heic"@) by { reveal_strlit("heic"); assert("dng"@.len() != "heic"@.len()); }
    assert("dng"@ != "heif"@) by { reveal_strlit("heif"); assert("dng"@.len() != "heif"@.len()); }
    assert("dng"@ != "avif"@) by { reveal_strlit("avif"); assert("dng"@.len() != "avif"@.len()); }
    assert("dng"@ != "mp4"@) by { reveal_strlit("mp4"); assert("dng"@[0] != "mp4"@[0]); }
    assert("dng"@ != "mov"@) by { reveal_strlit("mov"); assert("dng"@[0] != "mov"@[0]); }
    assert("dng"@ != "m4v"@) by { reveal_strlit("m4v"); assert("dng"@[0] != "m4v"@[0]); }
    assert("dng"@ != "mkv"@) by { reveal_strlit("mkv"); assert("dng"@[0] != "mkv"@[0]); }
    assert("dng"@ != "webm"@) by { reveal_strlit("webm"); assert("dng"@.len() != "webm"@.len()); }
}

proof fn lemma_extension_cr2()
    ensures
        extension_class("cr2"@) == AssetClass::Raw,
{
    reveal_strlit("cr2");
    assert("cr2"@ != "jpg"@) by { reveal_strlit("jpg"); assert("cr2"@[0] != "jpg"@[0]); }
    assert("cr2"@ != "jpeg"@) by { reveal_strlit("jpeg"); assert("cr2"@.len() != "jpeg"@.len()); }
    assert("cr2"@ != "jpe"@) by { reveal_strlit("jpe"); assert("cr2"@[0] != "jpe"@[0]); }
    assert("cr2"@ != "jfif"@) by { reveal_strlit("jfif"); assert("cr2"@.len() != "jfif"@.len()); }
    assert("cr2"@ != "png"@) by { reveal_strlit("png"); assert("cr2"@[0] != "png"@[0]); }
    assert("cr2"@ != "heic"@) by { reveal_strlit("heic"); assert("cr2"@.len() != "heic"@.len()); }
    assert("cr2"@ != "heif"@) by { reveal_strlit("heif"); assert("cr2"@.len() != "heif"@.len()); }
    assert("cr2"@ != "avif"@) by { reveal_strlit("avif"); assert("cr2"@.len() != "avif"@.len()); }
    assert("cr2"@ != "mp4"@) by { reveal_strlit("mp4"); assert("cr2"@[0] != "mp4"@[0]); }
    assert("cr2"@ != "mov"@) by { reveal_strlit("mov"); assert("cr2"@[0] != "mov"@[0]); }
    assert("cr2"@ != "m4v"@) by { reveal_strlit("m4v"); assert("cr2"@[0] != "m4v"@[0]); }
    assert("cr2"@ != "mkv"@) by { reveal_strlit("mkv"); assert("cr2"@[0] != "mkv"@[0]); }
    assert("cr2"@ != "webm"@) by { reveal_strlit("webm"); assert("cr2"@.len() != "webm"@.len()); }
    assert("cr2"@ != "dng"@) by { reveal_strlit("dng"); assert("cr2"@[0] != "dng"@[0]); }
}

proof fn lemma_extension_cr3()
    ensures
        extension_class("cr3"@) == AssetClass::Raw,
{
    reveal_strlit("cr3");
    assert("cr3"@ != "jpg"@) by { reveal_strlit("jpg"); assert("cr3"@[0] != "jpg"@[0]); }
    assert("cr3"@ != "jpeg"@) by { reveal_strlit("jpeg"); assert("cr3"@.len() != "jpeg"@.len()); }
    assert("cr3"@ != "jpe"@) by { reveal_strlit("jpe"); assert("cr3"@[0] != "jpe"@[0]); }
    assert("cr3"@ != "jfif"@) by { reveal_strlit("jfif"); assert("cr3"@.len() != "jfif"@.len()); }
    assert("cr3"@ != "png"@) by { reveal_strlit("png"); assert("cr3"@[0] != "png"@[0]); }
    assert("cr3"@ != "heic"@) by { reveal_strlit("heic"); assert("cr3"@.len() != "heic"@.len()); }
    assert("cr3"@ != "heif"@) by { reveal_strlit("heif"); assert("cr3"@.len() != "heif"@.len()); }
    assert("cr3"@ != "avif"@) by { reveal_strlit("avif"); assert("cr3"@.len() != "avif"@.len()); }
    assert("cr3"@ != "mp4"@) by { reveal_strlit("mp4"); assert("cr3"@[0] != "mp4"@[0]); }
    assert("cr3"@ != "mov"@) by { reveal_strlit("mov"); assert("cr3"@[0] != "mov"@[0]); }
    assert("cr3"@ != "m4v"@) by { reveal_strlit("m4v"); assert("cr3"@[0] != "m4v"@[0]); }
    assert("cr3"@ != "mkv"@) by { reveal_strlit("mkv"); assert("cr3"@[0] != "mkv"@[0]); }
    assert("cr3"@ != "webm"@) by { reveal_strlit("webm"); assert("cr3"@.len() != "webm"@.len()); }
    assert("cr3"@ != "dng"@) by { reveal_strlit("dng"); assert("cr3"@[0] != "dng"@[0]); }
    assert("cr3"@ != "cr2"@) by { reveal_strlit("cr2"); assert("cr3"@[2] != "cr2"@[2]); }
}

proof fn lemma_extension_nef()
    ensures
        extension_class("nef"@) == AssetClass::Raw,
{
    reveal_strlit("nef");
    assert("nef"@ != "jpg"@) by { reveal_strlit("jpg"); assert("nef"@[0] != "jpg"@[0]); }
    assert("nef"@ != "jpeg"@) by { reveal_strlit("jpeg"); assert("nef"@.len() != "jpeg"@.len()); }
    assert("nef"@ != "jpe"@) by { reveal_strlit("jpe"); assert("nef"@[0] != "jpe"@[0]); }
    assert("nef"@ != "jfif"@) by { reveal_strlit("jfif"); assert("nef"@.len() != "jfif"@.len()); }
    assert("nef"@ != "png"@) by { reveal_strlit("png"); assert("nef"@[0] != "png"@[0]); }
    assert("nef"@ != "heic"@) by { reveal_strlit("heic"); assert("nef"@.len() != "heic"@.len()); }
    assert("nef"@ != "heif"@) by { reveal_strlit("heif"); assert("nef"@.len() != "heif"@.len()); }
    assert("nef"@ != "avif"@) by { reveal_strlit("avif"); assert("nef"@.len() != "avif"@.len()); }
    assert("nef"@ != "mp4"@) by { reveal_strlit("mp4"); assert("nef"@[0] != "mp4"@[0]); }
    assert("nef"@ != "mov"@) by { reveal_strlit("mov"); assert("nef"@[0] != "mov"@[0]); }
    assert("nef"@ != "m4v"@) by { reveal_strlit("m4v"); assert("nef"@[0] != "m4v"@[0]); }
    assert("nef"@ != "mkv"@) by { reveal_strlit("mkv"); assert("nef"@[0] != "mkv"@[0]); }
    assert("nef"@ != "webm"@) by { reveal_strlit("webm"); assert("nef"@.len() != "webm"@.len()); }
    assert("nef"@ != "dng"@) by { reveal_strlit("dng"); assert("nef"@[0] != "dng"@[0]); }
    assert("nef"@ != "cr2"@) by { reveal_strlit("cr2"); assert("nef"@[0] != "cr2"@[0]); }
    assert("nef"@ != "cr3"@) by { reveal_strlit("cr3"); assert("nef"@[0] != "cr3"@[0]); }
}

proof fn lemma_extension_arw()
    ensures
        extension_class("arw"@) == AssetClass::Raw,
{
    reveal_strlit("arw");
    assert("arw"@ != "jpg"@) by { reveal_strlit("jpg"); assert("arw"@[0] != "jpg"@[0]); }
    assert("arw"@ != "jpeg"@) by { reveal_strlit("jpeg"); assert("arw"@.len() != "jpeg"@.len()); }
    assert("arw"@ != "jpe"@) by { reveal_strlit("jpe"); assert("arw"@[0] != "jpe"@[0]); }
    assert("arw"@ != "jfif"@) by { reveal_strlit("jfif"); assert("arw"@.len() != "jfif"@.len()); }
    assert("arw"@ != "png"@) by { reveal_strlit("png"); assert("arw"@[0] != "png"@[0]); }
    assert("arw"@ != "heic"@) by { reveal_strlit("heic"); assert("arw"@.len() != "heic"@.len()); }
    assert("arw"@ != "heif"@) by { reveal_strlit("heif"); assert("arw"@.len() != "heif"@.len()); }
    assert("arw"@ != "avif"@) by { reveal_strlit("avif"); assert("arw"@.len() != "avif"@.len()); }
    assert("arw"@ != "mp4"@) by { reveal_strlit("mp4"); assert("arw"@[0] != "mp4"@[0]); }
    assert("arw"@ != "mov"@) by { reveal_strlit("mov"); assert("arw"@[0] != "mov"@[0]); }
    assert("arw"@ != "m4v"@) by { reveal_strlit("m4v"); assert("arw"@[0] != "m4v"@[0]); }
    assert("arw"@ != "mkv"@) by { reveal_strlit("mkv"); assert("arw"@[0] != "mkv"@[0]); }
    assert("arw"@ != "webm"@) by { reveal_strlit("webm"); assert("arw"@.len() != "webm"@.len()); }
    assert("arw"@ != "dng"@) by { reveal_strlit("dng"); assert("arw"@[0] != "dng"@[0]); }
    assert("arw"@ != "cr2"@) by { reveal_strlit("cr2"); assert("arw"@[0] != "cr2"@[0]); }
    assert("arw"@ != "cr3"@) by { reveal_strlit("cr3"); assert("arw"@[0] != "cr3"@[0]); }
    assert("arw"@ != "nef"@) by { reveal_strlit("nef"); assert("arw"@[0] != "nef"@[0]); }
}

proof fn lemma_extension_raf()
    ensures
        extension_class("raf"@) == AssetClass::Raw,
{
    reveal_strlit("raf");
    assert("raf"@ != "jpg"@) by { reveal_strlit("jpg"); assert("raf"@[0] != "jpg"@[0]); }
    assert("raf"@ != "jpeg"@) by { reveal_strlit("jpeg"); assert("raf"@.len() != "jpeg"@.len()); }
    assert("raf"@ != "jpe"@) by { reveal_strlit("jpe"); assert("raf"@[0] != "jpe"@[0]); }
    assert("raf"@ != "jfif"@) by { reveal_strlit("jfif"); assert("raf"@.len() != "jfif"@.len()); }
    assert("raf"@ != "png"@) by { reveal_strlit("png"); assert("raf"@[0] != "png"@[0]); }
    assert("raf"@ != "heic"@) by { reveal_strlit("heic"); assert("raf"@.len() != "heic"@.len()); }
    assert("raf"@ != "heif"@) by { reveal_strlit("heif"); assert("raf"@.len() != "heif"@.len()); }
    assert("raf"@ != "avif"@) by { reveal_strlit("avif"); assert("raf"@.len() != "avif"@.len()); }
    assert("raf"@ != "mp4"@) by { reveal_strlit("mp4"); assert("raf"@[0] != "mp4"@[0]); }
    assert("raf"@ != "mov"@) by { reveal_strlit("mov"); assert("raf"@[0] != "mov"@[0]); }
    assert("raf"@ != "m4v"@) by { reveal_strlit("m4v"); assert("raf"@[0] != "m4v"@[0]); }
    assert("raf"@ != "mkv"@) by { reveal_strlit("mkv"); assert("raf"@[0] != "mkv"@[0]); }
    assert("raf"@ != "webm"@) by { reveal_strlit("webm"); assert("raf"@.len() != "webm"@.len()); }
    assert("raf"@ != "dng"@) by { reveal_strlit("dng"); assert("raf"@[0] != "dng"@[0]); }
    assert("raf"@ != "cr2"@) by { reveal_strlit("cr2"); assert("raf"@[0] != "cr2"@[0]); }
    assert("raf"@ != "cr3"@) by { reveal_strlit("cr3"); assert("raf"@[0] != "cr3"@[0]); }
    assert("raf"@ != "nef"@) by { reveal_strlit("nef"); assert("raf"@[0] != "nef"@[0]); }
    assert("raf"@ != "arw"@) by { reveal_strlit("arw"); assert("raf"@[0] != "arw"@[0]); }
}

proof fn lemma_extension_orf()
    ensures
        extension_class("orf"@) == AssetClass::Raw,
{
    reveal_strlit("orf");
    assert("orf"@ != "jpg"@) by { reveal_strlit("jpg"); assert("orf"@[0] != "jpg"@[0]); }
    assert("orf"@ != "jpeg"@) by { reveal_strlit("jpeg"); assert("orf"@.len() != "jpeg"@.len()); }
    assert("orf"@ != "jpe"@) by { reveal_strlit("jpe"); assert("orf"@[0] != "jpe"@[0]); }
    assert("orf"@ != "jfif"@) by { reveal_strlit("jfif"); assert("orf"@.len() != "jfif"@.len()); }
    assert("orf"@ != "png"@) by { reveal_strlit("png"); assert("orf"@[0] != "png"@[0]); }
    assert("orf"@ != "heic"@) by { reveal_strlit("heic"); assert("orf"@.len() != "heic"@.len()); }
    assert("orf"@ != "heif"@) by { reveal_strlit("heif"); assert("orf"@.len() != "heif"@.len()); }
    assert("orf"@ != "avif"@) by { reveal_strlit("avif"); assert("orf"@.len() != "avif"@.len()); }
    assert("orf"@ != "mp4"@) by { reveal_strlit("mp4"); assert("orf"@[0] != "mp4"@[0]); }
    assert("orf"@ != "mov"@) by { reveal_strlit("mov"); assert("orf"@[0] != "mov"@[0]); }
    assert("orf"@ != "m4v"@) by { reveal_strlit("m4v"); assert("orf"@[0] != "m4v"@[0]); }
    assert("orf"@ != "mkv"@) by { reveal_strlit("mkv"); assert("orf"@[0] != "mkv"@[0]); }
    assert("orf"@ != "webm"@) by { reveal_strlit("webm"); assert("orf"@.len() != "webm"@.len()); }
    assert("orf"@ != "dng"@) by { reveal_strlit("dng"); assert("orf"@[0] != "dng"@[0]); }
    assert("orf"@ != "cr2"@) by { reveal_strlit("cr2"); assert("orf"@[0] != "cr2"@[0]); }
    assert("orf"@ != "cr3"@) by { reveal_strlit("cr3"); assert("orf"@[0] != "cr3"@[0]); }
    assert("orf"@ != "nef"@) by { reveal_strlit("nef"); assert("orf"@[0] != "nef"@[0]); }
    assert("orf"@ != "arw"@) by { reveal_strlit("arw"); assert("orf"@[0] != "arw"@[0]); }
    assert("orf"@ != "raf"@) by { reveal_strlit("raf"); assert("orf"@[0] != "raf"@[0]); }
}

proof fn lemma_extension_rw2()
    ensures
        extension_class("rw2"@) == AssetClass::Raw,
{
    reveal_strlit("rw2");
    assert("rw2"@ != "jpg"@) by { reveal_strlit("jpg"); assert("rw2"@[0] != "jpg"@[0]); }
    assert("rw2"@ != "jpeg"@) by { reveal_strlit("jpeg"); assert("rw2"@.len() != "jpeg"@.len()); }
    assert("rw2"@ != "jpe"@) by { reveal_strlit("jpe"); assert("rw2"@[0] != "jpe"@[0]); }
    assert("rw2"@ != "jfif"@) by { reveal_strlit("jfif"); assert("rw2"@.len() != "jfif"@.len()); }
    assert("rw2"@ != "png"@) by { reveal_strlit("png"); assert("rw2"@[0] != "png"@[0]); }
    assert("rw2"@ != "heic"@) by { reveal_strlit("heic"); assert("rw2"@.len() != "heic"@.len()); }
    assert("rw2"@ != "heif"@) by { reveal_strlit("heif"); assert("rw2"@.len() != "heif"@.len()); }
    assert("rw2"@ != "avif"@) by { reveal_strlit("avif"); assert("rw2"@.len() != "avif"@.len()); }
    assert("rw2"@ != "mp4"@) by { reveal_strlit("mp4"); assert("rw2"@[0] != "mp4"@[0]); }
    assert("rw2"@ != "mov"@) by { reveal_strlit("mov"); assert("rw2"@[0] != "mov"@[0]); }
    assert("rw2"@ != "m4v"@) by { reveal_strlit("m4v"); assert("rw2"@[0] != "m4v"@[0]); }
    assert("rw2"@ != "mkv"@) by { reveal_strlit("mkv"); assert("rw2"@[0] != "mkv"@[0]); }
    assert("rw2"@ != "webm"@) by { reveal_strlit("webm"); assert("rw2"@.len() != "webm"@.len()); }
    assert("rw2"@ != "dng"@) by { reveal_strlit("dng"); assert("rw2"@[0] != "dng"@[0]); }
    assert("rw2"@ != "cr2"@) by { reveal_strlit("cr2"); assert("rw2"@[0] != "cr2"@[0]); }
    assert("rw2"@ != "cr3"@) by { reveal_strlit("cr3"); assert("rw2"@[0] != "cr3"@[0]); }
    assert("rw2"@ != "nef"@) by { reveal_strlit("nef"); assert("rw2"@[0] != "nef"@[0]); }
    assert("rw2"@ != "arw"@) by { reveal_strlit("arw"); assert("rw2"@[0] != "arw"@[0]); }
    assert("rw2"@ != "raf"@) by { reveal_strlit("raf"); assert("rw2"@[1] != "raf"@[1]); }
    assert("rw2"@ != "orf"@) by { reveal_strlit("orf"); assert("rw2"@[0] != "orf"@[0]); }
}

proof fn lemma_extension_flac()
    ensures
        extension_class("flac"@) == AssetClass::AudioLossless,
{
    reveal_strlit("flac");
    assert("flac"@ != "jpg"@) by { reveal_strlit("jpg"); assert("flac"@.len() != "jpg"@.len()); }
    assert("flac"@ != "jpeg"@) by { reveal_strlit("jpeg"); assert("flac"@[0] != "jpeg"@[0]); }
    assert("flac"@ != "jpe"@) by { reveal_strlit("jpe"); assert("flac"@.len() != "jpe"@.len()); }
    assert("flac"@ != "jfif"@) by { reveal_strlit("jfif"); assert("flac"@[0] != "jfif"@[0]); }
    assert("flac"@ != "png"@) by { reveal_strlit("png"); assert("flac"@.len() != "png"@.len()); }
    assert("flac"@ != "heic"@) by { reveal_strlit("heic"); assert("flac"@[0] != "heic"@[0]); }
    assert("flac"@ != "heif"@) by { reveal_strlit("heif"); assert("flac"@[0] != "heif"@[0]); }
    assert("flac"@ != "avif"@) by { reveal_strlit("avif"); assert("flac"@[0] != "avif"@[0]); }
    assert("flac"@ != "mp4"@) by { reveal_strlit("mp4"); assert("flac"@.len() != "mp4"@.len()); }
    assert("flac"@ != "mov"@) by { reveal_strlit("mov"); assert("flac"@.len() != "mov"@.len()); }
    assert("flac"@ != "m4v"@) by { reveal_strlit("m4v"); assert("flac"@.len() != "m4v"@.len()); }
    assert("flac"@ != "mkv"@) by { reveal_strlit("mkv"); assert("flac"@.len() != "mkv"@.len()); }
    assert("flac"@ != "webm"@) by { reveal_strlit("webm"); assert("flac"@[0] != "webm"@[0]); }
    assert("flac"@ != "dng"@) by { reveal_strlit("dng"); assert("flac"@.len() != "dng"@.len()); }
    assert("flac"@ != "cr2"@) by { reveal_strlit("cr2"); assert("flac"@.len() != "cr2"@.len()); }
    assert("flac"@ != "cr3"@) by { reveal_strlit("cr3"); assert("flac"@.len() != "cr3"@.len()); }
    assert("flac"@ != "nef"@) by { reveal_strlit("nef"); assert("flac"@.len() != "nef"@.len()); }
    assert("flac"@ != "arw"@) by { reveal_strlit("arw"); assert("flac"@.len() != "arw"@.len()); }
    assert("flac"@ != "raf"@) by { reveal_strlit("raf"); assert("flac"@.len() != "raf"@.len()); }
    assert("flac"@ != "orf"@) by { reveal_strlit("orf"); assert("flac"@.len() != "orf"@.len()); }
    assert("flac"@ != "rw2"@) by { reveal_strlit("rw2"); assert("flac"@.len() != "rw2"@.len()); }
}

proof fn lemma_extension_wav()
    ensures
        extension_class("wav"@) == AssetClass::AudioLossless,
{
    reveal_strlit("wav");
    assert("wav"@ != "jpg"@) by { reveal_strlit("jpg"); assert("wav"@[0] != "jpg"@[0]); }
    assert("wav"@ != "jpeg"@) by { reveal_strlit("jpeg"); assert("wav"@.len() != "jpeg"@.len()); }
    assert("wav"@ != "jpe"@) by { reveal_strlit("jpe"); assert("wav"@[0] != "jpe"@[0]); }
    assert("wav"@ != "jfif"@) by { reveal_strlit("jfif"); assert("wav"@.len() != "jfif"@.len()); }
    assert("wav"@ != "png"@) by { reveal_strlit("png"); assert("wav"@[0] != "png"@[0]); }
    assert("wav"@ != "heic"@) by { reveal_strlit("heic"); assert("wav"@.len() != "heic"@.len()); }
    assert("wav"@ != "heif"@) by { reveal_strlit("heif"); assert("wav"@.len() != "heif"@.len()); }
    assert("wav"@ != "avif"@) by { reveal_strlit("avif"); assert("wav"@.len() != "avif"@.len()); }
    assert("wav"@ != "mp4"@) by { reveal_strlit("mp4"); assert("wav"@[0] != "mp4"@[0]); }
    assert("wav"@ != "mov"@) by { reveal_strlit("mov"); assert("wav"@[0] != "mov"@[0]); }
    assert("wav"@ != "m4v"@) by { reveal_strlit("m4v"); assert("wav"@[0] != "m4v"@[0]); }
    assert("wav"@ != "mkv"@) by { reveal_strlit("mkv"); assert("wav"@[0] != "mkv"@[0]); }
    assert("wav"@ != "webm"@) by { reveal_strlit("webm"); assert("wav"@.len() != "webm"@.len()); }
    assert("wav"@ != "dng"@) by { reveal_strlit("dng"); assert("wav"@[0] != "dng"@[0]); }
    assert("wav"@ != "cr2"@) by { reveal_strlit("cr2"); assert("wav"@[0] != "cr2"@[0]); }
    assert("wav"@ != "cr3"@) by { reveal_strlit("cr3"); assert("wav"@[0] != "cr3"@[0]); }
    assert("wav"@ != "nef"@) by { reveal_strlit("nef"); assert("wav"@[0] != "nef"@[0]); }
    assert("wav"@ != "arw"@) by { reveal_strlit("arw"); assert("wav"@[0] != "arw"@[0]); }
    assert("wav"@ != "raf"@) by { reveal_strlit("raf"); assert("wav"@[0] != "raf"@[0]); }
    assert("wav"@ != "orf"@) by { reveal_strlit("orf"); assert("wav"@[0] != "orf"@[0]); }
    assert("wav"@ != "rw2"@) by { reveal_strlit("rw2"); assert("wav"@[0] != "rw2"@[0]); }
    assert("wav"@ != "flac"@) by { reveal_strlit("flac"); assert("wav"@.len() != "flac"@.len()); }
}

proof fn lemma_extension_aiff()
    ensures
        extension_class("aiff"@) == AssetClass::AudioLossless,
{
    reveal_strlit("aiff");
    assert("aiff"@ != "jpg"@) by { reveal_strlit("jpg"); assert("aiff"@.len() != "jpg"@.len()); }
    assert("aiff"@ != "jpeg"@) by { reveal_strlit("jpeg"); assert("aiff"@[0] != "jpeg"@[0]); }
    assert("aiff"@ != "jpe"@) by { reveal_strlit("jpe"); assert("aiff"@.len() != "jpe"@.len()); }
    assert("aiff"@ != "jfif"@) by { reveal_strlit("jfif"); assert("aiff"@[0] != "jfif"@[0]); }
    assert("aiff"@ != "png"@) by { reveal_strlit("png"); assert("aiff"@.len() != "png"@.len()); }
    assert("aiff"@ != "heic"@) by { reveal_strlit("heic"); assert("aiff"@[0] != "heic"@[0]); }
    assert("aiff"@ != "heif"@) by { reveal_strlit("heif"); assert("aiff"@[0] != "heif"@[0]); }
    assert("aiff"@ != "avif"@) by { reveal_strlit("avif"); assert("aiff"@[1] != "avif"@[1]); }
    assert("aiff"@ != "mp4"@) by { reveal_strlit("mp4"); assert("aiff"@.len() != "mp4"@.len()); }
    assert("aiff"@ != "mov"@) by { reveal_strlit("mov"); assert("aiff"@.len() != "mov"@.len()); }
    assert("aiff"@ != "m4v"@) by { reveal_strlit("m4v"); assert("aiff"@.len() != "m4v"@.len()); }
    assert("aiff"@ != "mkv"@) by { reveal_strlit("mkv"); assert("aiff"@.len() != "mkv"@.len()); }
    assert("aiff"@ != "webm"@) by { reveal_strlit("webm"); assert("aiff"@[0] != "webm"@[0]); }
    assert("aiff"@ != "dng"@) by { reveal_strlit("dng"); assert("aiff"@.len() != "dng"@.len()); }
    assert("aiff"@ != "cr2"@) by { reveal_strlit("cr2"); assert("aiff"@.len() != "cr2"@.len()); }
    assert("aiff"@ != "cr3"@) by { reveal_strlit("cr3"); assert("aiff"@.len() != "cr3"@.len()); }
    assert("aiff"@ != "nef"@) by { reveal_strlit("nef"); assert("aiff"@.len() != "nef"@.len()); }
    assert("aiff"@ != "arw"@) by { reveal_strlit("arw"); assert("aiff"@.len() != "arw"@.len()); }
    assert("aiff"@ != "raf"@) by { reveal_strlit("raf"); assert("aiff"@.len() != "raf"@.len()); }
    assert("aiff"@ != "orf"@) by { reveal_strlit("orf"); assert("aiff"@.len() != "orf"@.len()); }
    assert("aiff"@ != "rw2"@) by { reveal_strlit("rw2"); assert("aiff"@.len() != "rw2"@.len()); }
    assert("aiff"@ != "flac"@) by { reveal_strlit("flac"); assert("aiff"@[0] != "flac"@[0]); }
    assert("aiff"@ != "wav"@) by { reveal_strlit("wav"); assert("aiff"@.len() != "wav"@.len()); }
}

proof fn lemma_extension_mp3()
    ensures
        extension_class("mp3"@) == AssetClass::AudioLossy,
{
    reveal_strlit("mp3");
    assert("mp3"@ != "jpg"@) by { reveal_strlit("jpg"); assert("mp3"@[0] != "jpg"@[0]); }
    assert("mp3"@ != "jpeg"@) by { reveal_strlit("jpeg"); assert("mp3"@.len() != "jpeg"@.len()); }
    assert("mp3"@ != "jpe"@) by { reveal_strlit("jpe"); assert("mp3"@[0] != "jpe"@[0]); }
    assert("mp3"@ != "jfif"@) by { reveal_strlit("jfif"); assert("mp3"@.len() != "jfif"@.len()); }
    assert("mp3"@ != "png"@) by { reveal_strlit("png"); assert("mp3"@[0] != "png"@[0]); }
    assert("mp3"@ != "heic"@) by { reveal_strlit("heic"); assert("mp3"@.len() != "heic"@.len()); }
    assert("mp3"@ != "heif"@) by { reveal_strlit("heif"); assert("mp3"@.len() != "heif"@.len()); }
    assert("mp3"@ != "avif"@) by { reveal_strlit("avif"); assert("mp3"@.len() != "avif"@.len()); }
    assert("mp3"@ != "mp4"@) by { reveal_strlit("mp4"); assert("mp3"@[2] != "mp4"@[2]); }
    assert("mp3"@ != "mov"@) by { reveal_strlit("mov"); assert("mp3"@[1] != "mov"@[1]); }
    assert("mp3"@ != "m4v"@) by { reveal_strlit("m4v"); assert("mp3"@[1] != "m4v"@[1]); }
    assert("mp3"@ != "mkv"@) by { reveal_strlit("mkv"); assert("mp3"@[1] != "mkv"@[1]); }
    assert("mp3"@ != "webm"@) by { reveal_strlit("webm"); assert("mp3"@.len() != "webm"@.len()); }
    assert("mp3"@ != "dng"@) by { reveal_strlit("dng"); assert("mp3"@[0] != "dng"@[0]); }
    assert("mp3"@ != "cr2"@) by { reveal_strlit("cr2"); assert("mp3"@[0] != "cr2"@[0]); }
    assert("mp3"@ != "cr3"@) by { reveal_strlit("cr3"); assert("mp3"@[0] != "cr3"@[0]); }
    assert("mp3"@ != "nef"@) by { reveal_strlit("nef"); assert("mp3"@[0] != "nef"@[0]); }
    assert("mp3"@ != "arw"@) by { reveal_strlit("arw"); assert("mp3"@[0] != "arw"@[0]); }
    assert("mp3"@ != "raf"@) by { reveal_strlit("raf"); assert("mp3"@[0] != "raf"@[0]); }
    assert("mp3"@ != "orf"@) by { reveal_strlit("orf"); assert("mp3"@[0] != "orf"@[0]); }
    assert("mp3"@ != "rw2"@) by { reveal_strlit("rw2"); assert("mp3"@[0] != "rw2"@[0]); }
    assert("mp3"@ != "flac"@) by { reveal_strlit("flac"); assert("mp3"@.len() != "flac"@.len()); }
    assert("mp3"@ != "wav"@) by { reveal_strlit("wav"); assert("mp3"@[0] != "wav"@[0]); }
    assert("mp3"@ != "aiff"@) by { reveal_strlit("aiff"); assert("mp3"@.len() != "aiff"@.len()); }
}

proof fn lemma_extension_m4a()
    ensures
        extension_class("m4a"@) == AssetClass::AudioLossy,
{
    reveal_strlit("m4a");
    assert("m4a"@ != "jpg"@) by { reveal_strlit("jpg"); assert("m4a"@[0] != "jpg"@[0]); }
    assert("m4a"@ != "jpeg"@) by { reveal_strlit("jpeg"); assert("m4a"@.len() != "jpeg"@.len()); }
    assert("m4a"@ != "jpe"@) by { reveal_strlit("jpe"); assert("m4a"@[0] != "jpe"@[0]); }
    assert("m4a"@ != "jfif"@) by { reveal_strlit("jfif"); assert("m4a"@.len() != "jfif"@.len()); }
    assert("m4a"@ != "png"@) by { reveal_strlit("png"); assert("m4a"@[0] != "png"@[0]); }
    assert("m4a"@ != "heic"@) by { reveal_strlit("heic"); assert("m4a"@.len() != "heic"@.len()); }
    assert("m4a"@ != "heif"@) by { reveal_strlit("heif"); assert("m4a"@.len() != "heif"@.len()); }
    assert("m4a"@ != "avif"@) by { reveal_strlit("avif"); assert("m4a"@.len() != "avif"@.len()); }
    assert("m4a"@ != "mp4"@) by { reveal_strlit("mp4"); assert("m4a"@[1] != "mp4"@[1]); }
    assert("m4a"@ != "mov"@) by { reveal_strlit("mov"); assert("m4a"@[1] != "mov"@[1]); }
    assert("m4a"@ != "m4v"@) by { reveal_strlit("m4v"); assert("m4a"@[2] != "m4v"@[2]); }
    assert("m4a"@ != "mkv"@) by { reveal_strlit("mkv"); assert("m4a"@[1] != "mkv"@[1]); }
    assert("m4a"@ != "webm"@) by { reveal_strlit("webm"); assert("m4a"@.len() != "webm"@.len()); }
    assert("m4a"@ != "dng"@) by { reveal_strlit("dng"); assert("m4a"@[0] != "dng"@[0]); }
    assert("m4a"@ != "cr2"@) by { reveal_strlit("cr2"); assert("m4a"@[0] != "cr2"@[0]); }
    assert("m4a"@ != "cr3"@) by { reveal_strlit("cr3"); assert("m4a"@[0] != "cr3"@[0]); }
    assert("m4a"@ != "nef"@) by { reveal_strlit("nef"); assert("m4a"@[0] != "nef"@[0]); }
    assert("m4a"@ != "arw"@) by { reveal_strlit("arw"); assert("m4a"@[0] != "arw"@[0]); }
    assert("m4a"@ != "raf"@) by { reveal_strlit("raf"); assert("m4a"@[0] != "raf"@[0]); }
    assert("m4a"@ != "orf"@) by { reveal_strlit("orf"); assert("m4a"@[0] != "orf"@[0]); }
    assert("m4a"@ != "rw2"@) by { reveal_strlit("rw2"); assert("m4a"@[0] != "rw2"@[0]); }
    assert("m4a"@ != "flac"@) by { reveal_strlit("flac"); assert("m4a"@.len() != "flac"@.len()); }
    assert("m4a"@ != "wav"@) by { reveal_strlit("wav"); assert("m4a"@[0] != "wav"@[0]); }
    assert("m4a"@ != "aiff"@) by { reveal_strlit("aiff"); assert("m4a"@.len() != "aiff"@.len()); }
    assert("m4a"@ != "mp3"@) by { reveal_strlit("mp3"); assert("m4a"@[1] != "mp3"@[1]); }
}

proof fn lemma_extension_aac()
    ensures
        extension_class("aac"@) == AssetClass::AudioLossy,
{
    reveal_strlit("aac");
    assert("aac"@ != "jpg"@) by { reveal_strlit("jpg"); assert("aac"@[0] != "jpg"@[0]); }
    assert("aac"@ != "jpeg"@) by { reveal_strlit("jpeg"); assert("aac"@.len() != "jpeg"@.len()); }
    assert("aac"@ != "jpe"@) by { reveal_strlit("jpe"); assert("aac"@[0] != "jpe"@[0]); }
    assert("aac"@ != "jfif"@) by { reveal_strlit("jfif"); assert("aac"@.len() != "jfif"@.len()); }
    assert("aac"@ != "png"@) by { reveal_strlit("png"); assert("aac"@[0] != "png"@[0]); }
    assert("aac"@ != "heic"@) by { reveal_strlit("heic"); assert("aac"@.len() != "heic"@.len()); }
    assert("aac"@ != "heif"@) by { reveal_strlit("heif"); assert("aac"@.len() != "heif"@.len()); }
    assert("aac"@ != "avif"@) by { reveal_strlit("avif"); assert("aac"@.len() != "avif"@.len()); }
    assert("aac"@ != "mp4"@) by { reveal_strlit("mp4"); assert("aac"@[0] != "mp4"@[0]); }
    assert("aac"@ != "mov"@) by { reveal_strlit("mov"); assert("aac"@[0] != "mov"@[0]); }
    assert("aac"@ != "m4v"@) by { reveal_strlit("m4v"); assert("aac"@[0] != "m4v"@[0]); }
    assert("aac"@ != "mkv"@) by { reveal_strlit("mkv"); assert("aac"@[0] != "mkv"@[0]); }
    assert("aac"@ != "webm"@) by { reveal_strlit("webm"); assert("aac"@.len() != "webm"@.len()); }
    assert("aac"@ != "dng"@) by { reveal_strlit("dng"); assert("aac"@[0] != "dng"@[0]); }
    assert("aac"@ != "cr2"@) by { reveal_strlit("cr2"); assert("aac"@[0] != "cr2"@[0]); }
    assert("aac"@ != "cr3"@) by { reveal_strlit("cr3"); assert("aac"@[0] != "cr3"@[0]); }
    assert("aac"@ != "nef"@) by { reveal_strlit("nef"); assert("aac"@[0] != "nef"@[0]); }
    assert("aac"@ != "arw"@) by { reveal_strlit("arw"); assert("aac"@[1] != "arw"@[1]); }
    assert("aac"@ != "raf"@) by { reveal_strlit("raf"); assert("aac"@[0] != "raf"@[0]); }
    assert("aac"@ != "orf"@) by { reveal_strlit("orf"); assert("aac"@[0] != "orf"@[0]); }
    assert("aac"@ != "rw2"@) by { reveal_strlit("rw2"); assert("aac"@[0] != "rw2"@[0]); }
    assert("aac"@ != "flac"@) by { reveal_strlit("flac"); assert("aac"@.len() != "flac"@.len()); }
    assert("aac"@ != "wav"@) by { reveal_strlit("wav"); assert("aac"@[0] != "wav"@[0]); }
    assert("aac"@ != "aiff"@) by { reveal_strlit("aiff"); assert("aac"@.len() != "aiff"@.len()); }
    assert("aac"@ != "mp3"@) by { reveal_strlit("mp3"); assert("aac"@[0] != "mp3"@[0]); }
    assert("aac"@ != "m4a"@) by { reveal_strlit("m4a"); assert("aac"@[0] != "m4a"@[0]); }
}

proof fn lemma_extension_ogg()
    ensures
        extension_class("ogg"@) == AssetClass::AudioLossy,
{
    reveal_strlit("ogg");
    assert("ogg"@ != "jpg"@) by { reveal_strlit("jpg"); assert("ogg"@[0] != "jpg"@[0]); }
    assert("ogg"@ != "jpeg"@) by { reveal_strlit("jpeg"); assert("ogg"@.len() != "jpeg"@.len()); }
    assert("ogg"@ != "jpe"@) by { reveal_strlit("jpe"); assert("ogg"@[0] != "jpe"@[0]); }
    assert("ogg"@ != "jfif"@) by { reveal_strlit("jfif"); assert("ogg"@.len() != "jfif"@.len()); }
    assert("ogg"@ != "png"@) by { reveal_strlit("png"); assert("ogg"@[0] != "png"@[0]); }
    assert("ogg"@ != "heic"@) by { reveal_strlit("heic"); assert("ogg"@.len() != "heic"@.len()); }
    assert("ogg"@ != "heif"@) by { reveal_strlit("heif"); assert("ogg"@.len() != "heif"@.len()); }
    assert("ogg"@ != "avif"@) by { reveal_strlit("avif"); assert("ogg"@.len() != "avif"@.len()); }
    assert("ogg"@ != "mp4"@) by { reveal_strlit("mp4"); assert("ogg"@[0] != "mp4"@[0]); }
    assert("ogg"@ != "mov"@) by { reveal_strlit("mov"); assert("ogg"@[0] != "mov"@[0]); }
    assert("ogg"@ != "m4v"@) by { reveal_strlit("m4v"); assert("ogg"@[0] != "m4v"@[0]); }
    assert("ogg"@ != "mkv"@) by { reveal_strlit("mkv"); assert("ogg"@[0] != "mkv"@[0]); }
    assert("ogg"@ != "webm"@) by { reveal_strlit("webm"); assert("ogg"@.len() != "webm"@.len()); }
    assert("ogg"@ != "dng"@) by { reveal_strlit("dng"); assert("ogg"@[0] != "dng"@[0]); }
    assert("ogg"@ != "cr2"@) by { reveal_strlit("cr2"); assert("ogg"@[0] != "cr2"@[0]); }
    assert("ogg"@ != "cr3"@) by { reveal_strlit("cr3"); assert("ogg"@[0] != "cr3"@[0]); }
    assert("ogg"@ != "nef"@) by { reveal_strlit("nef"); assert("ogg"@[0] != "nef"@[0]); }
    assert("ogg"@ != "arw"@) by { reveal_strlit("arw"); assert("ogg"@[0] != "arw"@[0]); }
    assert("ogg"@ != "raf"@) by { reveal_strlit("raf"); assert("ogg"@[0] != "raf"@[0]); }
    assert("ogg"@ != "orf"@) by { reveal_strlit("orf"); assert("ogg"@[1] != "orf"@[1]); }
    assert("ogg"@ != "rw2"@) by { reveal_strlit("rw2"); assert("ogg"@[0] != "rw2"@[0]); }
    assert("ogg"@ != "flac"@) by { reveal_strlit("flac"); assert("ogg"@.len() != "flac"@.len()); }
    assert("ogg"@ != "wav"@) by { reveal_strlit("wav"); assert("ogg"@[0] != "wav"@[0]); }
    assert("ogg"@ != "aiff"@) by { reveal_strlit("aiff"); assert("ogg"@.len() != "aiff"@.len()); }
    assert("ogg"@ != "mp3"@) by { reveal_strlit("mp3"); assert("ogg"@[0] != "mp3"@[0]); }
    assert("ogg"@ != "m4a"@) by { reveal_strlit("m4a"); assert("ogg"@[0] != "m4a"@[0]); }
    assert("ogg"@ != "aac"@) by { reveal_strlit("aac"); assert("ogg"@[0] != "aac"@[0]); }
}

proof fn lemma_extension_opus()
    ensures
        extension_class("opus"@) == AssetClass::AudioLossy,
{
    reveal_strlit("opus");
    assert("opus"@ != "jpg"@) by { reveal_strlit("jpg"); assert("opus"@.len() != "jpg"@.len()); }
    assert("opus"@ != "jpeg"@) by { reveal_strlit("jpeg"); assert("opus"@[0] != "jpeg"@[0]); }
    assert("opus"@ != "jpe"@) by { reveal_strlit("jpe"); assert("opus"@.len() != "jpe"@.len()); }
    assert("opus"@ != "jfif"@) by { reveal_strlit("jfif"); assert("opus"@[0] != "jfif"@[0]); }
    assert("opus"@ != "png"@) by { reveal_strlit("png"); assert("opus"@.len() != "png"@.len()); }
    assert("opus"@ != "heic"@) by { reveal_strlit("heic"); assert("opus"@[0] != "heic"@[0]); }
    assert("opus"@ != "heif"@) by { reveal_strlit("heif"); assert("opus"@[0] != "heif"@[0]); }
    assert("opus"@ != "avif"@) by { reveal_strlit("avif"); assert("opus"@[0] != "avif"@[0]); }
    assert("opus"@ != "mp4"@) by { reveal_strlit("mp4"); assert("opus"@.len() != "mp4"@.len()); }
    assert("opus"@ != "mov"@) by { reveal_strlit("mov"); assert("opus"@.len() != "mov"@.len()); }
    assert("opus"@ != "m4v"@) by { reveal_strlit("m4v"); assert("opus"@.len() != "m4v"@.len()); }
    assert("opus"@ != "mkv"@) by { reveal_strlit("mkv"); assert("opus"@.len() != "mkv"@.len()); }
    assert("opus"@ != "webm"@) by { reveal_strlit("webm"); assert("opus"@[0] != "webm"@[0]); }
    assert("opus"@ != "dng"@) by { reveal_strlit("dng"); assert("opus"@.len() != "dng"@.len()); }
    assert("opus"@ != "cr2"@) by { reveal_strlit("cr2"); assert("opus"@.len() != "cr2"@.len()); }
    assert("opus"@ != "cr3"@) by { reveal_strlit("cr3"); assert("opus"@.len() != "cr3"@.len()); }
    assert("opus"@ != "nef"@) by { reveal_strlit("nef"); assert("opus"@.len() != "nef"@.len()); }
    assert("opus"@ != "arw"@) by { reveal_strlit("arw"); assert("opus"@.len() != "arw"@.len()); }
    assert("opus"@ != "raf"@) by { reveal_strlit("raf"); assert("opus"@.len() != "raf"@.len()); }
    assert("opus"@ != "orf"@) by { reveal_strlit("orf"); assert("opus"@.len() != "orf"@.len()); }
    assert("opus"@ != "rw2"@) by { reveal_strlit("rw2"); assert("opus"@.len() != "rw2"@.len()); }
    assert("opus"@ != "flac"@) by { reveal_strlit("flac"); assert("opus"@[0] != "flac"@[0]); }
    assert("opus"@ != "wav"@) by { reveal_strlit("wav"); assert("opus"@.len() != "wav"@.len()); }
    assert("opus"@ != "aiff"@) by { reveal_strlit("aiff"); assert("opus"@[0] != "aiff"@[0]); }
    assert("opus"@ != "mp3"@) by { reveal_strlit("mp3"); assert("opus"@.len() != "mp3"@.len()); }
    assert("opus"@ != "m4a"@) by { reveal_strlit("m4a"); assert("opus"@.len() != "m4a"@.len()); }
    assert("opus"@ != "aac"@) by { reveal_strlit("aac"); assert("opus"@.len() != "aac"@.len()); }
    assert("opus"@ != "ogg"@) by { reveal_strlit("ogg"); assert("opus"@.len() != "ogg"@.len()); }
}

proof fn lemma_extension_txt()
    ensures
        extension_class("txt"@) == AssetClass::Document,
{
    reveal_strlit("txt");
    assert("txt"@ != "jpg"@) by { reveal_strlit("jpg"); assert("txt"@[0] != "jpg"@[0]); }
    assert("txt"@ != "jpeg"@) by { reveal_strlit("jpeg"); assert("txt"@.len() != "jpeg"@.len()); }
    assert("txt"@ != "jpe"@) by { reveal_strlit("jpe"); assert("txt"@[0] != "jpe"@[0]); }
    assert("txt"@ != "jfif"@) by { reveal_strlit("jfif"); assert("txt"@.len() != "jfif"@.len()); }
    assert("txt"@ != "png"@) by { reveal_strlit("png"); assert("txt"@[0] != "png"@[0]); }
    assert("txt"@ != "heic"@) by { reveal_strlit("heic"); assert("txt"@.len() != "heic"@.len()); }
    assert("txt"@ != "heif"@) by { reveal_strlit("heif"); assert("txt"@.len() != "heif"@.len()); }
    assert("txt"@ != "avif"@) by { reveal_strlit("avif"); assert("txt"@.len() != "avif"@.len()); }
    assert("txt"@ != "mp4"@) by { reveal_strlit("mp4"); assert("txt"@[0] != "mp4"@[0]); }
    assert("txt"@ != "mov"@) by { reveal_strlit("mov"); assert("txt"@[0] != "mov"@[0]); }
    assert("txt"@ != "m4v"@) by { reveal_strlit("m4v"); assert("txt"@[0] != "m4v"@[0]); }
    assert("txt"@ != "mkv"@) by { reveal_strlit("mkv"); assert("txt"@[0] != "mkv"@[0]); }
    assert("txt"@ != "webm"@) by { reveal_strlit("webm"); assert("txt"@.len() != "webm"@.len()); }
    assert("txt"@ != "dng"@) by { reveal_strlit("dng"); assert("txt"@[0] != "dng"@[0]); }
    assert("txt"@ != "cr2"@) by { reveal_strlit("cr2"); assert("txt"@[0] != "cr2"@[0]); }
    assert("txt"@ != "cr3"@) by { reveal_strlit("cr3"); assert("txt"@[0] != "cr3"@[0]); }
    assert("txt"@ != "nef"@) by { reveal_strlit("nef"); assert("txt"@[0] != "nef"@[0]); }
    assert("txt"@ != "arw"@) by { reveal_strlit("arw"); assert("txt"@[0] != "arw"@[0]); }
    assert("txt"@ != "raf"@) by { reveal_strlit("raf"); assert("txt"@[0] != "raf"@[0]); }
    assert("txt"@ != "orf"@) by { reveal_strlit("orf"); assert("txt"@[0] != "orf"@[0]); }
    assert("txt"@ != "rw2"@) by { reveal_strlit("rw2"); assert("txt"@[0] != "rw2"@[0]); }
    assert("txt"@ != "flac"@) by { reveal_strlit("flac"); assert("txt"@.len() != "flac"@.len()); }
    assert("txt"@ != "wav"@) by { reveal_strlit("wav"); assert("txt"@[0] != "wav"@[0]); }
    assert("txt"@ != "aiff"@) by { reveal_strlit("aiff"); assert("txt"@.len() != "aiff"@.len()); }
    assert("txt"@ != "mp3"@) by { reveal_strlit("mp3"); assert("txt"@[0] != "mp3"@[0]); }
    assert("txt"@ != "m4a"@) by { reveal_strlit("m4a"); assert("txt"@[0] != "m4a"@[0]); }
    assert("txt"@ != "aac"@) by { reveal_strlit("aac"); assert("txt"@[0] != "aac"@[0]); }
    assert("txt"@ != "ogg"@) by { reveal_strlit("ogg"); assert("txt"@[0] != "ogg"@[0]); }
    assert("txt"@ != "opus"@) by { reveal_strlit("opus"); assert("txt"@.len() != "opus"@.len()); }
}

proof fn lemma_extension_md()
    ensures
        extension_class("md"@) == AssetClass::Document,
{
    reveal_strlit("md");
    assert("md"@ != "jpg"@) by { reveal_strlit("jpg"); assert("md"@.len() != "jpg"@.len()); }
    assert("md"@ != "jpeg"@) by { reveal_strlit("jpeg"); assert("md"@.len() != "jpeg"@.len()); }
    assert("md"@ != "jpe"@) by { reveal_strlit("jpe"); assert("md"@.len() != "jpe"@.len()); }
    assert("md"@ != "jfif"@) by { reveal_strlit("jfif"); assert("md"@.len() != "jfif"@.len()); }
    assert("md"@ != "png"@) by { reveal_strlit("png"); assert("md"@.len() != "png"@.len()); }
    assert("md"@ != "heic"@) by { reveal_strlit("heic"); assert("md"@.len() != "heic"@.len()); }
    assert("md"@ != "heif"@) by { reveal_strlit("heif"); assert("md"@.len() != "heif"@.len()); }
    assert("md"@ != "avif"@) by { reveal_strlit("avif"); assert("md"@.len() != "avif"@.len()); }
    assert("md"@ != "mp4"@) by { reveal_strlit("mp4"); assert("md"@.len() != "mp4"@.len()); }
    assert("md"@ != "mov"@) by { reveal_strlit("mov"); assert("md"@.len() != "mov"@.len()); }
    assert("md"@ != "m4v"@) by { reveal_strlit("m4v"); assert("md"@.len() != "m4v"@.len()); }
    assert("md"@ != "mkv"@) by { reveal_strlit("mkv"); assert("md"@.len() != "mkv"@.len()); }
    assert("md"@ != "webm"@) by { reveal_strlit("webm"); assert("md"@.len() != "webm"@.len()); }
    assert("md"@ != "dng"@) by { reveal_strlit("dng"); assert("md"@.len() != "dng"@.len()); }
    assert("md"@ != "cr2"@) by { reveal_strlit("cr2"); assert("md"@.len() != "cr2"@.len()); }
    assert("md"@ != "cr3"@) by { reveal_strlit("cr3"); assert("md"@.len() != "cr3"@.len()); }
    assert("md"@ != "nef"@) by { reveal_strlit("nef"); assert("md"@.len() != "nef"@.len()); }
    assert("md"@ != "arw"@) by { reveal_strlit("arw"); assert("md"@.len() != "arw"@.len()); }
    assert("md"@ != "raf"@) by { reveal_strlit("raf"); assert("md"@.len() != "raf"@.len()); }
    assert("md"@ != "orf"@) by { reveal_strlit("orf"); assert("md"@.len() != "orf"@.len()); }
    assert("md"@ != "rw2"@) by { reveal_strlit("rw2"); assert("md"@.len() != "rw2"@.len()); }
    assert("md"@ != "flac"@) by { reveal_strlit("flac"); assert("md"@.len() != "flac"@.len()); }
    assert("md"@ != "wav"@) by { reveal_strlit("wav"); assert("md"@.len() != "wav"@.len()); }
    assert("md"@ != "aiff"@) by { reveal_strlit("aiff"); assert("md"@.len() != "aiff"@.len()); }
    assert("md"@ != "mp3"@) by { reveal_strlit("mp3"); assert("md"@.len() != "mp3"@.len()); }
    assert("md"@ != "m4a"@) by { reveal_strlit("m4a"); assert("md"@.len() != "m4a"@.len()); }
    assert("md"@ != "aac"@) by { reveal_strlit("aac"); assert("md"@.len() != "aac"@.len()); }
    assert("md"@ != "ogg"@) by { reveal_strlit("ogg"); assert("md"@.len() != "ogg"@.len()); }
    assert("md"@ != "opus"@) by { reveal_strlit("opus"); assert("md"@.len() != "opus"@.len()); }
    assert("md"@ != "txt"@) by { reveal_strlit("txt"); assert("md"@.len() != "txt"@.len()); }
}

proof fn lemma_extension_json()
    ensures
        extension_class("json"@) == AssetClass::Document,
{
    reveal_strlit("json");
    assert("json"@ != "jpg"@) by { reveal_strlit("jpg"); assert("json"@.len() != "jpg"@.len()); }
    assert("json"@ != "jpeg"@) by { reveal_strlit("jpeg"); assert("json"@[1] != "jpeg"@[1]); }
    assert("json"@ != "jpe"@) by { reveal_strlit("jpe"); assert("json"@.len() != "jpe"@.len()); }
    assert("json"@ != "jfif"@) by { reveal_strlit("jfif"); assert("json"@[1] != "jfif"@[1]); }
    assert("json"@ != "png"@) by { reveal_strlit("png"); assert("json"@.len() != "png"@.len()); }
    assert("json"@ != "heic"@) by { reveal_strlit("heic"); assert("json"@[0] != "heic"@[0]); }
    assert("json"@ != "heif"@) by { reveal_strlit("heif"); assert("json"@[0] != "heif"@[0]); }
    assert("json"@ != "avif"@) by { reveal_strlit("avif"); assert("json"@[0] != "avif"@[0]); }
    assert("json"@ != "mp4"@) by { reveal_strlit("mp4"); assert("json"@.len() != "mp4"@.len()); }
    assert("json"@ != "mov"@) by { reveal_strlit("mov"); assert("json"@.len() != "mov"@.len()); }
    assert("json"@ != "m4v"@) by { reveal_strlit("m4v"); assert("json"@.len() != "m4v"@.len()); }
    assert("json"@ != "mkv"@) by { reveal_strlit("mkv"); assert("json"@.len() != "mkv"@.len()); }
    assert("json"@ != "webm"@) by { reveal_strlit("webm"); assert("json"@[0] != "webm"@[0]); }
    assert("json"@ != "dng"@) by { reveal_strlit("dng"); assert("json"@.len() != "dng"@.len()); }
    assert("json"@ != "cr2"@) by { reveal_strlit("cr2"); assert("json"@.len() != "cr2"@.len()); }
    assert("json"@ != "cr3"@) by { reveal_strlit("cr3"); assert("json"@.len() != "cr3"@.len()); }
    assert("json"@ != "nef"@) by { reveal_strlit("nef"); assert("json"@.len() != "nef"@.len()); }
    assert("json"@ != "arw"@) by { reveal_strlit("arw"); assert("json"@.len() != "arw"@.len()); }
    assert("json"@ != "raf"@) by { reveal_strlit("raf"); assert("json"@.len() != "raf"@.len()); }
    assert("json"@ != "orf"@) by { reveal_strlit("orf"); assert("json"@.len() != "orf"@.len()); }
    assert("json"@ != "rw2"@) by { reveal_strlit("rw2"); assert("json"@.len() != "rw2"@.len()); }
    assert("json"@ != "flac"@) by { reveal_strlit("flac"); assert("json"@[0] != "flac"@[0]); }
    assert("json"@ != "wav"@) by { reveal_strlit("wav"); assert("json"@.len() != "wav"@.len()); }
    assert("json"@ != "aiff"@) by { reveal_strlit("aiff"); assert("json"@[0] != "aiff"@[0]); }
    assert("json"@ != "mp3"@) by { reveal_strlit("mp3"); assert("json"@.len() != "mp3"@.len()); }
    assert("json"@ != "m4a"@) by { reveal_strlit("m4a"); assert("json"@.len() != "m4a"@.len()); }
    assert("json"@ != "aac"@) by { reveal_strlit("aac"); assert("json"@.len() != "aac"@.len()); }
    assert("json"@ != "ogg"@) by { reveal_strlit("ogg"); assert("json"@.len() != "ogg"@.len()); }
    assert("json"@ != "opus"@) by { reveal_strlit("opus"); assert("json"@[0] != "opus"@[0]); }
    assert("json"@ != "txt"@) by { reveal_strlit("txt"); assert("json"@.len() != "txt"@.len()); }
    assert("json"@ != "md"@) by { reveal_strlit("md"); assert("json"@.len() != "md"@.len()); }
}

proof fn lemma_extension_csv()
    ensures
        extension_class("csv"@) == AssetClass::Document,
{
    reveal_strlit("csv");
    assert("csv"@ != "jpg"@) by { reveal_strlit("jpg"); assert("csv"@[0] != "jpg"@[0]); }
    assert("csv"@ != "jpeg"@) by { reveal_strlit("jpeg"); assert("csv"@.len() != "jpeg"@.len()); }
    assert("csv"@ != "jpe"@) by { reveal_strlit("jpe"); assert("csv"@[0] != "jpe"@[0]); }
    assert("csv"@ != "jfif"@) by { reveal_strlit("jfif"); assert("csv"@.len() != "jfif"@.len()); }
    assert("csv"@ != "png"@) by { reveal_strlit("png"); assert("csv"@[0] != "png"@[0]); }
    assert("csv"@ != "heic"@) by { reveal_strlit("heic"); assert("csv"@.len() != "heic"@.len()); }
    assert("csv"@ != "heif"@) by { reveal_strlit("heif"); assert("csv"@.len() != "heif"@.len()); }
    assert("csv"@ != "avif"@) by { reveal_strlit("avif"); assert("csv"@.len() != "avif"@.len()); }
    assert("csv"@ != "mp4"@) by { reveal_strlit("mp4"); assert("csv"@[0] != "mp4"@[0]); }
    assert("csv"@ != "mov"@) by { reveal_strlit("mov"); assert("csv"@[0] != "mov"@[0]); }
    assert("csv"@ != "m4v"@) by { reveal_strlit("m4v"); assert("csv"@[0] != "m4v"@[0]); }
    assert("csv"@ != "mkv"@) by { reveal_strlit("mkv"); assert("csv"@[0] != "mkv"@[0]); }
    assert("csv"@ != "webm"@) by { reveal_strlit("webm"); assert("csv"@.len() != "webm"@.len()); }
    assert("csv"@ != "dng"@) by { reveal_strlit("dng"); assert("csv"@[0] != "dng"@[0]); }
    assert("csv"@ != "cr2"@) by { reveal_strlit("cr2"); assert("csv"@[1] != "cr2"@[1]); }
    assert("csv"@ != "cr3"@) by { reveal_strlit("cr3"); assert("csv"@[1] != "cr3"@[1]); }
    assert("csv"@ != "nef"@) by { reveal_strlit("nef"); assert("csv"@[0] != "nef"@[0]); }
    assert("csv"@ != "arw"@) by { reveal_strlit("arw"); assert("csv"@[0] != "arw"@[0]); }
    assert("csv"@ != "raf"@) by { reveal_strlit("raf"); assert("csv"@[0] != "raf"@[0]); }
    assert("csv"@ != "orf"@) by { reveal_strlit("orf"); assert("csv"@[0] != "orf"@[0]); }
    assert("csv"@ != "rw2"@) by { reveal_strlit("rw2"); assert("csv"@[0] != "rw2"@[0]); }
    assert("csv"@ != "flac"@) by { reveal_strlit("flac"); assert("csv"@.len() != "flac"@.len()); }
    assert("csv"@ != "wav"@) by { reveal_strlit("wav"); assert("csv"@[0] != "wav"@[0]); }
    assert("csv"@ != "aiff"@) by { reveal_strlit("aiff"); assert("csv"@.len() != "aiff"@.len()); }
    assert("csv"@ != "mp3"@) by { reveal_strlit("mp3"); assert("csv"@[0] != "mp3"@[0]); }
    assert("csv"@ != "m4a"@) by { reveal_strlit("m4a"); assert("csv"@[0] != "m4a"@[0]); }
    assert("csv"@ != "aac"@) by { reveal_strlit("aac"); assert("csv"@[0] != "aac"@[0]); }
    assert("csv"@ != "ogg"@) by { reveal_strlit("ogg"); assert("csv"@[0] != "ogg"@[0]); }
    assert("csv"@ != "opus"@) by { reveal_strlit("opus"); assert("csv"@.len() != "opus"@.len()); }
    assert("csv"@ != "txt"@) by { reveal_strlit("txt"); assert("csv"@[0] != "txt"@[0]); }
    assert("csv"@ != "md"@) by { reveal_strlit("md"); assert("csv"@.len() != "md"@.len()); }
    assert("csv"@ != "json"@) by { reveal_strlit("json"); assert("csv"@.len() != "json"@.len()); }
}

proof fn lemma_extension_xml()
    ensures
        extension_class("xml"@) == AssetClass::Document,
{
    reveal_strlit("xml");
    assert("xml"@ != "jpg"@) by { reveal_strlit("jpg"); assert("xml"@[0] != "jpg"@[0]); }
    assert("xml"@ != "jpeg"@) by { reveal_strlit("jpeg"); assert("xml"@.len() != "jpeg"@.len()); }
    assert("xml"@ != "jpe"@) by { reveal_strlit("jpe"); assert("xml"@[0] != "jpe"@[0]); }
    assert("xml"@ != "jfif"@) by { reveal_strlit("jfif"); assert("xml"@.len() != "jfif"@.len()); }
    assert("xml"@ != "png"@) by { reveal_strlit("png"); assert("xml"@[0] != "png"@[0]); }
    assert("xml"@ != "heic"@) by { reveal_strlit("heic"); assert("xml"@.len() != "heic"@.len()); }
    assert("xml"@ != "heif"@) by { reveal_strlit("heif"); assert("xml"@.len() != "heif"@.len()); }
    assert("xml"@ != "avif"@) by { reveal_strlit("avif"); assert("xml"@.len() != "avif"@.len()); }
    assert("xml"@ != "mp4"@) by { reveal_strlit("mp4"); assert("xml"@[0] != "mp4"@[0]); }
    assert("xml"@ != "mov"@) by { reveal_strlit("mov"); assert("xml"@[0] != "mov"@[0]); }
    assert("xml"@ != "m4v"@) by { reveal_strlit("m4v"); assert("xml"@[0] != "m4v"@[0]); }
    assert("xml"@ != "mkv"@) by { reveal_strlit("mkv"); assert("xml"@[0] != "mkv"@[0]); }
    assert("xml"@ != "webm"@) by { reveal_strlit("webm"); assert("xml"@.len() != "webm"@.len()); }
    assert("xml"@ != "dng"@) by { reveal_strlit("dng"); assert("xml"@[0] != "dng"@[0]); }
    assert("xml"@ != "cr2"@) by { reveal_strlit("cr2"); assert("xml"@[0] != "cr2"@[0]); }
    assert("xml"@ != "cr3"@) by { reveal_strlit("cr3"); assert("xml"@[0] != "cr3"@[0]); }
    assert("xml"@ != "nef"@) by { reveal_strlit("nef"); assert("xml"@[0] != "nef"@[0]); }
    assert("xml"@ != "arw"@) by { reveal_strlit("arw"); assert("xml"@[0] != "arw"@[0]); }
    assert("xml"@ != "raf"@) by { reveal_strlit("raf"); assert("xml"@[0] != "raf"@[0]); }
    assert("xml"@ != "orf"@) by { reveal_strlit("orf"); assert("xml"@[0] != "orf"@[0]); }
    assert("xml"@ != "rw2"@) by { reveal_strlit("rw2"); assert("xml"@[0] != "rw2"@[0]); }
    assert("xml"@ != "flac"@) by { reveal_strlit("flac"); assert("xml"@.len() != "flac"@.len()); }
    assert("xml"@ != "wav"@) by { reveal_strlit("wav"); assert("xml"@[0] != "wav"@[0]); }
    assert("xml"@ != "aiff"@) by { reveal_strlit("aiff"); assert("xml"@.len() != "aiff"@.len()); }
    assert("xml"@ != "mp3"@) by { reveal_strlit("mp3"); assert("xml"@[0] != "mp3"@[0]); }
    assert("xml"@ != "m4a"@) by { reveal_strlit("m4a"); assert("xml"@[0] != "m4a"@[0]); }
    assert("xml"@ != "aac"@) by { reveal_strlit("aac"); assert("xml"@[0] != "aac"@[0]); }
    assert("xml"@ != "ogg"@) by { reveal_strlit("ogg"); assert("xml"@[0] != "ogg"@[0]); }
    assert("xml"@ != "opus"@) by { reveal_strlit("opus"); assert("xml"@.len() != "opus"@.len()); }
    assert("xml"@ != "txt"@) by { reveal_strlit("txt"); assert("xml"@[0] != "txt"@[0]); }
    assert("xml"@ != "md"@) by { reveal_strlit("md"); assert("xml"@.len() != "md"@.len()); }
    assert("xml"@ != "json"@) by { reveal_strlit("json"); assert("xml"@.len() != "json"@.len()); }
    assert("xml"@ != "csv"@) by { reveal_strlit("csv"); assert("xml"@[0] != "csv"@[0]); }
}

proof fn lemma_extension_log()
    ensures
        extension_class("log"@) == AssetClass::Document,
{
    reveal_strlit("log");
    assert("log"@ != "jpg"@) by { reveal_strlit("jpg"); assert("log"@[0] != "jpg"@[0]); }
    assert("log"@ != "jpeg"@) by { reveal_strlit("jpeg"); assert("log"@.len() != "jpeg"@.len()); }
    assert("log"@ != "jpe"@) by { reveal_strlit("jpe"); assert("log"@[0] != "jpe"@[0]); }
    assert("log"@ != "jfif"@) by { reveal_strlit("jfif"); assert("log"@.len() != "jfif"@.len()); }
    assert("log"@ != "png"@) by { reveal_strlit("png"); assert("log"@[0] != "png"@[0]); }
    assert("log"@ != "heic"@) by { reveal_strlit("heic"); assert("log"@.len() != "heic"@.len()); }
    assert("log"@ != "heif"@) by { reveal_strlit("heif"); assert("log"@.len() != "heif"@.len()); }
    assert("log"@ != "avif"@) by { reveal_strlit("avif"); assert("log"@.len() != "avif"@.len()); }
    assert("log"@ != "mp4"@) by { reveal_strlit("mp4"); assert("log"@[0] != "mp4"@[0]); }
    assert("log"@ != "mov"@) by { reveal_strlit("mov"); assert("log"@[0] != "mov"@[0]); }
    assert("log"@ != "m4v"@) by { reveal_strlit("m4v"); assert("log"@[0] != "m4v"@[0]); }
    assert("log"@ != "mkv"@) by { reveal_strlit("mkv"); assert("log"@[0] != "mkv"@[0]); }
    assert("log"@ != "webm"@) by { reveal_strlit("webm"); assert("log"@.len() != "webm"@.len()); }
    assert("log"@ != "dng"@) by { reveal_strlit("dng"); assert("log"@[0] != "dng"@[0]); }
    assert("log"@ != "cr2"@) by { reveal_strlit("cr2"); assert("log"@[0] != "cr2"@[0]); }
    assert("log"@ != "cr3"@) by { reveal_strlit("cr3"); assert("log"@[0] != "cr3"@[0]); }
    assert("log"@ != "nef"@) by { reveal_strlit("nef"); assert("log"@[0] != "nef"@[0]); }
    assert("log"@ != "arw"@) by { reveal_strlit("arw"); assert("log"@[0] != "arw"@[0]); }
    assert("log"@ != "raf"@) by { reveal_strlit("raf"); assert("log"@[0] != "raf"@[0]); }
    assert("log"@ != "orf"@) by { reveal_strlit("orf"); assert("log"@[0] != "orf"@[0]); }
    assert("log"@ != "rw2"@) by { reveal_strlit("rw2"); assert("log"@[0] != "rw2"@[0]); }
    assert("log"@ != "flac"@) by { reveal_strlit("flac"); assert("log"@.len() != "flac"@.len()); }
    assert("log"@ != "wav"@) by { reveal_strlit("wav"); assert("log"@[0] != "wav"@[0]); }
    assert("log"@ != "aiff"@) by { reveal_strlit("aiff"); assert("log"@.len() != "aiff"@.len()); }
    assert("log"@ != "mp3"@) by { reveal_strlit("mp3"); assert("log"@[0] != "mp3"@[0]); }
    assert("log"@ != "m4a"@) by { reveal_strlit("m4a"); assert("log"@[0] != "m4a"@[0]); }
    assert("log"@ != "aac"@) by { reveal_strlit("aac"); assert("log"@[0] != "aac"@[0]); }
    assert("log"@ != "ogg"@) by { reveal_strlit("ogg"); assert("log"@[0] != "ogg"@[0]); }
    assert("log"@ != "opus"@) by { reveal_strlit("opus"); assert("log"@.len() != "opus"@.len()); }
    assert("log"@ != "txt"@) by { reveal_strlit("txt"); assert("log"@[0] != "txt"@[0]); }
    assert("log"@ != "md"@) by { reveal_strlit("md"); assert("log"@.len() != "md"@.len()); }
    assert("log"@ != "json"@) by { reveal_strlit("json"); assert("log"@.len() != "json"@.len()); }
    assert("log"@ != "csv"@) by { reveal_strlit("csv"); assert("log"@[0] != "csv"@[0]); }
    assert("log"@ != "xml"@) by { reveal_strlit("xml"); assert("log"@[0] != "xml"@[0]); }
}

proof fn lemma_extension_html()
    ensures
        extension_class("html"@) == AssetClass::Document,
{
    reveal_strlit("html");
    assert("html"@ != "jpg"@) by { reveal_strlit("jpg"); assert("html"@.len() != "jpg"@.len()); }
    assert("html"@ != "jpeg"@) by { reveal_strlit("jpeg"); assert("html"@[0] != "jpeg"@[0]); }
    assert("html"@ != "jpe"@) by { reveal_strlit("jpe"); assert("html"@.len() != "jpe"@.len()); }
    assert("html"@ != "jfif"@) by { reveal_strlit("jfif"); assert("html"@[0] != "jfif"@[0]); }
    assert("html"@ != "png"@) by { reveal_strlit("png"); assert("html"@.len() != "png"@.len()); }
    assert("html"@ != "heic"@) by { reveal_strlit("heic"); assert("html"@[1] != "heic"@[1]); }
    assert("html"@ != "heif"@) by { reveal_strlit("heif"); assert("html"@[1] != "heif"@[1]); }
    assert("html"@ != "avif"@) by { reveal_strlit("avif"); assert("html"@[0] != "avif"@[0]); }
    assert("html"@ != "mp4"@) by { reveal_strlit("mp4"); assert("html"@.len() != "mp4"@.len()); }
    assert("html"@ != "mov"@) by { reveal_strlit("mov"); assert("html"@.len() != "mov"@.len()); }
    assert("html"@ != "m4v"@) by { reveal_strlit("m4v"); assert("html"@.len() != "m4v"@.len()); }
    assert("html"@ != "mkv"@) by { reveal_strlit("mkv"); assert("html"@.len() != "mkv"@.len()); }
    assert("html"@ != "webm"@) by { reveal_strlit("webm"); assert("html"@[0] != "webm"@[0]); }
    assert("html"@ != "dng"@) by { reveal_strlit("dng"); assert("html"@.len() != "dng"@.len()); }
    assert("html"@ != "cr2"@) by { reveal_strlit("cr2"); assert("html"@.len() != "cr2"@.len()); }
    assert("html"@ != "cr3"@) by { reveal_strlit("cr3"); assert("html"@.len() != "cr3"@.len()); }
    assert("html"@ != "nef"@) by { reveal_strlit("nef"); assert("html"@.len() != "nef"@.len()); }
    assert("html"@ != "arw"@) by { reveal_strlit("arw"); assert("html"@.len() != "arw"@.len()); }
    assert("html"@ != "raf"@) by { reveal_strlit("raf"); assert("html"@.len() != "raf"@.len()); }
    assert("html"@ != "orf"@) by { reveal_strlit("orf"); assert("html"@.len() != "orf"@.len()); }
    assert("html"@ != "rw2"@) by { reveal_strlit("rw2"); assert("html"@.len() != "rw2"@.len()); }
    assert("html"@ != "flac"@) by { reveal_strlit("flac"); assert("html"@[0] != "flac"@[0]); }
    assert("html"@ != "wav"@) by { reveal_strlit("wav"); assert("html"@.len() != "wav"@.len()); }
    assert("html"@ != "aiff"@) by { reveal_strlit("aiff"); assert("html"@[0] != "aiff"@[0]); }
    assert("html"@ != "mp3"@) by { reveal_strlit("mp3"); assert("html"@.len() != "mp3"@.len()); }
    assert("html"@ != "m4a"@) by { reveal_strlit("m4a"); assert("html"@.len() != "m4a"@.len()); }
    assert("html"@ != "aac"@) by { reveal_strlit("aac"); assert("html"@.len() != "aac"@.len()); }
    assert("html"@ != "ogg"@) by { reveal_strlit("ogg"); assert("html"@.len() != "ogg"@.len()); }
    assert("html"@ != "opus"@) by { reveal_strlit("opus"); assert("html"@[0] != "opus"@[0]); }
    assert("html"@ != "txt"@) by { reveal_strlit("txt"); assert("html"@.len() != "txt"@.len()); }
    assert("html"@ != "md"@) by { reveal_strlit("md"); assert("html"@.len() != "md"@.len()); }
    assert("html"@ != "json"@) by { reveal_strlit("json"); assert("html"@[0] != "json"@[0]); }
    assert("html"@ != "csv"@) by { reveal_strlit("csv"); assert("html"@.len() != "csv"@.len()); }
    assert("html"@ != "xml"@) by { reveal_strlit("xml"); assert("html"@.len() != "xml"@.len()); }
    assert("html"@ != "log"@) by { reveal_strlit("log"); assert("html"@.len() != "log"@.len()); }
}

proof fn lemma_extension_pdf()
    ensures
        extension_class("pdf"@) == AssetClass::Document,
{
    reveal_strlit("pdf");
    assert("pdf"@ != "jpg"@) by { reveal_strlit("jpg"); assert("pdf"@[0] != "jpg"@[0]); }
    assert("pdf"@ != "jpeg"@) by { reveal_strlit("jpeg"); assert("pdf"@.len() != "jpeg"@.len()); }
    assert("pdf"@ != "jpe"@) by { reveal_strlit("jpe"); assert("pdf"@[0] != "jpe"@[0]); }
    assert("pdf"@ != "jfif"@) by { reveal_strlit("jfif"); assert("pdf"@.len() != "jfif"@.len()); }
    assert("pdf"@ != "png"@) by { reveal_strlit("png"); assert("pdf"@[1] != "png"@[1]); }
    assert("pdf"@ != "heic"@) by { reveal_strlit("heic"); assert("pdf"@.len() != "heic"@.len()); }
    assert("pdf"@ != "heif"@) by { reveal_strlit("heif"); assert("pdf"@.len() != "heif"@.len()); }
    assert("pdf"@ != "avif"@) by { reveal_strlit("avif"); assert("pdf"@.len() != "avif"@.len()); }
    assert("pdf"@ != "mp4"@) by { reveal_strlit("mp4"); assert("pdf"@[0] != "mp4"@[0]); }
    assert("pdf"@ != "mov"@) by { reveal_strlit("mov"); assert("pdf"@[0] != "mov"@[0]); }
    assert("pdf"@ != "m4v"@) by { reveal_strlit("m4v"); assert("pdf"@[0] != "m4v"@[0]); }
    assert("pdf"@ != "mkv"@) by { reveal_strlit("mkv"); assert("pdf"@[0] != "mkv"@[0]); }
    assert("pdf"@ != "webm"@) by { reveal_strlit("webm"); assert("pdf"@.len() != "webm"@.len()); }
    assert("pdf"@ != "dng"@) by { reveal_strlit("dng"); assert("pdf"@[0] != "dng"@[0]); }
    assert("pdf"@ != "cr2"@) by { reveal_strlit("cr2"); assert("pdf"@[0] != "cr2"@[0]); }
    assert("pdf"@ != "cr3"@) by { reveal_strlit("cr3"); assert("pdf"@[0] != "cr3"@[0]); }
    assert("pdf"@ != "nef"@) by { reveal_strlit("nef"); assert("pdf"@[0] != "nef"@[0]); }
    assert("pdf"@ != "arw"@) by { reveal_strlit("arw"); assert("pdf"@[0] != "arw"@[0]); }
    assert("pdf"@ != "raf"@) by { reveal_strlit("raf"); assert("pdf"@[0] != "raf"@[0]); }
    assert("pdf"@ != "orf"@) by { reveal_strlit("orf"); assert("pdf"@[0] != "orf"@[0]); }
    assert("pdf"@ != "rw2"@) by { reveal_strlit("rw2"); assert("pdf"@[0] != "rw2"@[0]); }
    assert("pdf"@ != "flac"@) by { reveal_strlit("flac"); assert("pdf"@.len() != "flac"@.len()); }
    assert("pdf"@ != "wav"@) by { reveal_strlit("wav"); assert("pdf"@[0] != "wav"@[0]); }
    assert("pdf"@ != "aiff"@) by { reveal_strlit("aiff"); assert("pdf"@.len() != "aiff"@.len()); }
    assert("pdf"@ != "mp3"@) by { reveal_strlit("mp3"); assert("pdf"@[0] != "mp3"@[0]); }
    assert("pdf"@ != "m4a"@) by { reveal_strlit("m4a"); assert("pdf"@[0] != "m4a"@[0]); }
    assert("pdf"@ != "aac"@) by { reveal_strlit("aac"); assert("pdf"@[0] != "aac"@[0]); }
    assert("pdf"@ != "ogg"@) by { reveal_strlit("ogg"); assert("pdf"@[0] != "ogg"@[0]); }
    assert("pdf"@ != "opus"@) by { reveal_strlit("opus"); assert("pdf"@.len() != "opus"@.len()); }
    assert("pdf"@ != "txt"@) by { reveal_strlit("txt"); assert("pdf"@[0] != "txt"@[0]); }
    assert("pdf"@ != "md"@) by { reveal_strlit("md"); assert("pdf"@.len() != "md"@.len()); }
    assert("pdf"@ != "json"@) by { reveal_strlit("json"); assert("pdf"@.len() != "json"@.len()); }
    assert("pdf"@ != "csv"@) by { reveal_strlit("csv"); assert("pdf"@[0] != "csv"@[0]); }
    assert("pdf"@ != "xml"@) by { reveal_strlit("xml"); assert("pdf"@[0] != "xml"@[0]); }
    assert("pdf"@ != "log"@) by { reveal_strlit("log"); assert("pdf"@[0] != "log"@[0]); }
    assert("pdf"@ != "html"@) by { reveal_strlit("html"); assert("pdf"@.len() != "html"@.len()); }
}

/// The extension table, in any case: what a name claims is decided by the
/// ASCII-lowercased text after its last `.`, and each known extension
/// claims its class. JPEG's four spellings all claim JPEG.
pub proof fn law_extension_table(name: Seq<char>)
    ensures
        ({
            let e = lower_seq(name_extension(name));
            &&& (e == "jpg"@ || e == "jpeg"@ || e == "jpe"@ || e == "jfif"@) ==> claimed_class(name) == AssetClass::Jpeg
            &&& (e == "png"@) ==> claimed_class(name) == AssetClass::Png
            &&& (e == "heic"@ || e == "heif"@ || e == "avif"@) ==> claimed_class(name) == AssetClass::Heic
            &&& (e == "mp4"@ || e == "mov"@ || e == "m4v"@ || e == "mkv"@ || e == "webm"@) ==> claimed_class(name) == AssetClass::VideoOther
            &&& (e == "dng"@ || e == "cr2"@ || e == "cr3"@ || e == "nef"@ || e == "arw"@ || e == "raf"@ || e == "orf"@ || e == "rw2"@) ==> claimed_class(name) == AssetClass::Raw
            &&& (e == "flac"@ || e == "wav"@ || e == "aiff"@) ==> claimed_class(name) == AssetClass::AudioLossless
            &&& (e == "mp3"@ || e == "m4a"@ || e == "aac"@ || e == "ogg"@ || e == "opus"@) ==> claimed_class(name) == AssetClass::AudioLossy
            &&& (e == "txt"@ || e == "md"@ || e == "json"@ || e == "csv"@ || e == "xml"@ || e == "log"@ || e == "html"@ || e == "pdf"@) ==> claimed_class(name) == AssetClass::Document
        }),
{
    lemma_extension_jpg();
    lemma_extension_jpeg();
    lemma_extension_jpe();
    lemma_extension_jfif();
    lemma_extension_png();
    lemma_extension_heic();
    lemma_extension_heif();
    lemma_extension_avif();
    lemma_extension_mp4();
    lemma_extension_mov();
    lemma_extension_m4v();
    lemma_extension_mkv();
    lemma_extension_webm();
    lemma_extension_dng();
    lemma_extension_cr2();
    lemma_extension_cr3();
    lemma_extension_nef();
    lemma_extension_arw();
    lemma_extension_raf();
    lemma_extension_orf();
    lemma_extension_rw2();
    lemma_extension_flac();
    lemma_extension_wav();
    lemma_extension_aiff();
    lemma_extension_mp3();
    lemma_extension_m4a();
    lemma_extension_aac();
    lemma_extension_ogg();
    lemma_extension_opus();
    lemma_extension_txt();
    lemma_extension_md();
    lemma_extension_json();
    lemma_extension_csv();
    lemma_extension_xml();
    lemma_extension_log();
    lemma_extension_html();
    lemma_extension_pdf();
}

proof fn lemma_mime_mp4(head: Seq<u8>)
    ensures
        mime_class("video/mp4"@, head) == Some(video_class(head)),
{
    reveal_strlit("video/mp4");
    assert("video/mp4"@ != "image/jpeg"@) by { reveal_strlit("image/jpeg"); assert("video/mp4"@[0] != "image/jpeg"@[0]); }
    assert("video/mp4"@ != "image/png"@) by { reveal_strlit("image/png"); assert("video/mp4"@[0] != "image/png"@[0]); }
    assert("video/mp4"@ != "image/heif"@) by { reveal_strlit("image/heif"); assert("video/mp4"@[0] != "image/heif"@[0]); }
    assert("video/mp4"@ != "image/heic"@) by { reveal_strlit("image/heic"); assert("video/mp4"@[0] != "image/heic"@[0]); }
    assert("video/mp4"@ != "image/avif"@) by { reveal_strlit("image/avif"); assert("video/mp4"@[0] != "image/avif"@[0]); }
    assert("video/mp4"@ != "image/x-canon-cr2"@) by { reveal_strlit("image/x-canon-cr2"); assert("video/mp4"@[0] != "image/x-canon-cr2"@[0]); }
    assert("video/mp4"@ != "image/x-nikon-nef"@) by { reveal_strlit("image/x-nikon-nef"); assert("video/mp4"@[0] != "image/x-nikon-nef"@[0]); }
    assert("video/mp4"@ != "image/tiff"@) by { reveal_strlit("image/tiff"); assert("video/mp4"@[0] != "image/tiff"@[0]); }
    assert("video/mp4"@ != "audio/x-flac"@) by { reveal_strlit("audio/x-flac"); assert("video/mp4"@[0] != "audio/x-flac"@[0]); }
    assert("video/mp4"@ != "audio/x-wav"@) by { reveal_strlit("audio/x-wav"); assert("video/mp4"@[0] != "audio/x-wav"@[0]); }
    assert("video/mp4"@ != "audio/wav"@) by { reveal_strlit("audio/wav"); assert("video/mp4"@[0] != "audio/wav"@[0]); }
    assert("video/mp4"@ != "audio/mpeg"@) by { reveal_strlit("audio/mpeg"); assert("video/mp4"@[0] != "audio/mpeg"@[0]); }
    assert("video/mp4"@ != "audio/m4a"@) by { reveal_strlit("audio/m4a"); assert("video/mp4"@[0] != "audio/m4a"@[0]); }
    assert("video/mp4"@ != "audio/aac"@) by { reveal_strlit("audio/aac"); assert("video/mp4"@[0] != "audio/aac"@[0]); }
    assert("video/mp4"@ != "audio/ogg"@) by { reveal_strlit("audio/ogg"); assert("video/mp4"@[0] != "audio/ogg"@[0]); }
}

proof fn lemma_mime_quicktime(head: Seq<u8>)
    ensures
        mime_class("video/quicktime"@, head) == Some(video_class(head)),
{
    reveal_strlit("video/quicktime");
    assert("video/quicktime"@ != "image/jpeg"@) by { reveal_strlit("image/jpeg"); assert("video/quicktime"@[0] != "image/jpeg"@[0]); }
    assert("video/quicktime"@ != "image/png"@) by { reveal_strlit("image/png"); assert("video/quicktime"@[0] != "image/png"@[0]); }
    assert("video/quicktime"@ != "image/heif"@) by { reveal_strlit("image/heif"); assert("video/quicktime"@[0] != "image/heif"@[0]); }
    assert("video/quicktime"@ != "image/heic"@) by { reveal_strlit("image/heic"); assert("video/quicktime"@[0] != "image/heic"@[0]); }
    assert("video/quicktime"@ != "image/avif"@) by { reveal_strlit("image/avif"); assert("video/quicktime"@[0] != "image/avif"@[0]); }
    assert("video/quicktime"@ != "image/x-canon-cr2"@) by { reveal_strlit("image/x-canon-cr2"); assert("video/quicktime"@[0] != "image/x-canon-cr2"@[0]); }
    assert("video/quicktime"@ != "image/x-nikon-nef"@) by { reveal_strlit("image/x-nikon-nef"); assert("video/quicktime"@[0] != "image/x-nikon-nef"@[0]); }
    assert("video/quicktime"@ != "image/tiff"@) by { reveal_strlit("image/tiff"); assert("video/quicktime"@[0] != "image/tiff"@[0]); }
    assert("video/quicktime"@ != "audio/x-flac"@) by { reveal_strlit("audio/x-flac"); assert("video/quicktime"@[0] != "audio/x-flac"@[0]); }
    assert("video/quicktime"@ != "audio/x-wav"@) by { reveal_strlit("audio/x-wav"); assert("video/quicktime"@[0] != "audio/x-wav"@[0]); }
    assert("video/quicktime"@ != "audio/wav"@) by { reveal_strlit("audio/wav"); assert("video/quicktime"@[0] != "audio/wav"@[0]); }
    assert("video/quicktime"@ != "audio/mpeg"@) by { reveal_strlit("audio/mpeg"); assert("video/quicktime"@[0] != "audio/mpeg"@[0]); }
    assert("video/quicktime"@ != "audio/m4a"@) by { reveal_strlit("audio/m4a"); assert("video/quicktime"@[0] != "audio/m4a"@[0]); }
    assert("video/quicktime"@ != "audio/aac"@) by { reveal_strlit("audio/aac"); assert("video/quicktime"@[0] != "audio/aac"@[0]); }
    assert("video/quicktime"@ != "audio/ogg"@) by { reveal_strlit("audio/ogg"); assert("video/quicktime"@[0] != "audio/ogg"@[0]); }
}

proof fn lemma_mime_x_matroska(head: Seq<u8>)
    ensures
        mime_class("video/x-matroska"@, head) == Some(video_class(head)),
{
    reveal_strlit("video/x-matroska");
    assert("video/x-matroska"@ != "image/jpeg"@) by { reveal_strlit("image/jpeg"); assert("video/x-matroska"@[0] != "image/jpeg"@[0]); }
    assert("video/x-matroska"@ != "image/png"@) by { reveal_strlit("image/png"); assert("video/x-matroska"@[0] != "image/png"@[0]); }
    assert("video/x-matroska"@ != "image/heif"@) by { reveal_strlit("image/heif"); assert("video/x-matroska"@[0] != "image/heif"@[0]); }
    assert("video/x-matroska"@ != "image/heic"@) by { reveal_strlit("image/heic"); assert("video/x-matroska"@[0] != "image/heic"@[0]); }
    assert("video/x-matroska"@ != "image/avif"@) by { reveal_strlit("image/avif"); assert("video/x-matroska"@[0] != "image/avif"@[0]); }
    assert("video/x-matroska"@ != "image/x-canon-cr2"@) by { reveal_strlit("image/x-canon-cr2"); assert("video/x-matroska"@[0] != "image/x-canon-cr2"@[0]); }
    assert("video/x-matroska"@ != "image/x-nikon-nef"@) by { reveal_strlit("image/x-nikon-nef"); assert("video/x-matroska"@[0] != "image/x-nikon-nef"@[0]); }
    assert("video/x-matroska"@ != "image/tiff"@) by { reveal_strlit("image/tiff"); assert("video/x-matroska"@[0] != "image/tiff"@[0]); }
    assert("video/x-matroska"@ != "audio/x-flac"@) by { reveal_strlit("audio/x-flac"); assert("video/x-matroska"@[0] != "audio/x-flac"@[0]); }
    assert("video/x-matroska"@ != "audio/x-wav"@) by { reveal_strlit("audio/x-wav"); assert("video/x-matroska"@[0] != "audio/x-wav"@[0]); }
    assert("video/x-matroska"@ != "audio/wav"@) by { reveal_strlit("audio/wav"); assert("video/x-matroska"@[0] != "audio/wav"@[0]); }
    assert("video/x-matroska"@ != "audio/mpeg"@) by { reveal_strlit("audio/mpeg"); assert("video/x-matroska"@[0] != "audio/mpeg"@[0]); }
    assert("video/x-matroska"@ != "audio/m4a"@) by { reveal_strlit("audio/m4a"); assert("video/x-matroska"@[0] != "audio/m4a"@[0]); }
    assert("video/x-matroska"@ != "audio/aac"@) by { reveal_strlit("audio/aac"); assert("video/x-matroska"@[0] != "audio/aac"@[0]); }
    assert("video/x-matroska"@ != "audio/ogg"@) by { reveal_strlit("audio/ogg"); assert("video/x-matroska"@[0] != "audio/ogg"@[0]); }
}

proof fn lemma_mime_webm(head: Seq<u8>)
    ensures
        mime_class("video/webm"@, head) == Some(video_class(head)),
{
    reveal_strlit("video/webm");
    assert("video/webm"@ != "image/jpeg"@) by { reveal_strlit("image/jpeg"); assert("video/webm"@[0] != "image/jpeg"@[0]); }
    assert("video/webm"@ != "image/png"@) by { reveal_strlit("image/png"); assert("video/webm"@[0] != "image/png"@[0]); }
    assert("video/webm"@ != "image/heif"@) by { reveal_strlit("image/heif"); assert("video/webm"@[0] != "image/heif"@[0]); }
    assert("video/webm"@ != "image/heic"@) by { reveal_strlit("image/heic"); assert("video/webm"@[0] != "image/heic"@[0]); }
    assert("video/webm"@ != "image/avif"@) by { reveal_strlit("image/avif"); assert("video/webm"@[0] != "image/avif"@[0]); }
    assert("video/webm"@ != "image/x-canon-cr2"@) by { reveal_strlit("image/x-canon-cr2"); assert("video/webm"@[0] != "image/x-canon-cr2"@[0]); }
    assert("video/webm"@ != "image/x-nikon-nef"@) by { reveal_strlit("image/x-nikon-nef"); assert("video/webm"@[0] != "image/x-nikon-nef"@[0]); }
    assert("video/webm"@ != "image/tiff"@) by { reveal_strlit("image/tiff"); assert("video/webm"@[0] != "image/tiff"@[0]); }
    assert("video/webm"@ != "audio/x-flac"@) by { reveal_strlit("audio/x-flac"); assert("video/webm"@[0] != "audio/x-flac"@[0]); }
    assert("video/webm"@ != "audio/x-wav"@) by { reveal_strlit("audio/x-wav"); assert("video/webm"@[0] != "audio/x-wav"@[0]); }
    assert("video/webm"@ != "audio/wav"@) by { reveal_strlit("audio/wav"); assert("video/webm"@[0] != "audio/wav"@[0]); }
    assert("video/webm"@ != "audio/mpeg"@) by { reveal_strlit("audio/mpeg"); assert("video/webm"@[0] != "audio/mpeg"@[0]); }
    assert("video/webm"@ != "audio/m4a"@) by { reveal_strlit("audio/m4a"); assert("video/webm"@[0] != "audio/m4a"@[0]); }
    assert("video/webm"@ != "audio/aac"@) by { reveal_strlit("audio/aac"); assert("video/webm"@[0] != "audio/aac"@[0]); }
    assert("video/webm"@ != "audio/ogg"@) by { reveal_strlit("audio/ogg"); assert("video/webm"@[0] != "audio/ogg"@[0]); }
}

/// A header `infer` reads as a video container (MP4, QuickTime, Matroska
/// or WebM) is a video, whatever the name says: it is classified into one of
/// the four video classes, never as a document or an opaque blob, so a run
/// stores it as-is rather than compressing it as data.
pub proof fn law_video_containers_are_video(m: Seq<char>, head: Seq<u8>, path: Seq<char>)
    requires
        m == "video/mp4"@ || m == "video/quicktime"@ || m == "video/x-matroska"@ || m == "video/webm"@,
    ensures
        ({
            let c = class_from(m, head, path);
            c == AssetClass::VideoH264 || c == AssetClass::VideoHevc || c == AssetClass::VideoAv1 || c
                == AssetClass::VideoOther
        }),
{
    lemma_mime_mp4(head);
    lemma_mime_quicktime(head);
    lemma_mime_x_matroska(head);
    lemma_mime_webm(head);
}

} // verus!
