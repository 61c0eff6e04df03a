//! Choosing a directory's cover among the images it holds.

use vstd::prelude::*;

use vstd::utf8::encode_utf8;

use crate::sort::{bytes_le, bytes_le_exec, lowercase_bytes, lowercase_utf8};

verus! {

/// An image file: its path and its file stem (the name without extension).
#[derive(Clone, Debug)]
pub struct ImageFile {
    pub path: String,
    pub stem: String,
}

/// `needle` occurs in `hay`.
pub open spec fn contains_bytes(hay: Seq<u8>, needle: Seq<u8>) -> bool {
    exists|i: int| 0 <= i && i + needle.len() <= hay.len() && #[trigger] hay.subrange(i, i + needle.len()) == needle
}

/// The lowercase name of an image.
pub open spec fn image_name(img: ImageFile) -> Seq<u8> {
    lowercase_utf8(img.stem@)
}

/// The UTF-8 bytes of an image's path.
pub open spec fn image_path_bytes(img: ImageFile) -> Seq<u8> {
    encode_utf8(img.path@)
}

/// The first of the first `k` images whose name is `target`.
pub open spec fn first_named(imgs: Seq<ImageFile>, target: Seq<u8>, k: int) -> Option<int>
    decreases k,
{
    if k <= 0 {
        None
    } else {
        let before = first_named(imgs, target, k - 1);
        if before is Some {
            before
        } else if image_name(imgs[k - 1]) == target {
            Some(k - 1)
        } else {
            None
        }
    }
}

/// The last of the first `k` images whose name contains `needle`.
pub open spec fn last_containing(imgs: Seq<ImageFile>, needle: Seq<u8>, k: int) -> Option<int>
    decreases k,
{
    if k <= 0 {
        None
    } else if contains_bytes(image_name(imgs[k - 1]), needle) {
        Some(k - 1)
    } else {
        last_containing(imgs, needle, k - 1)
    }
}

/// The first of the first `k` images whose path comes first in byte order.
pub open spec fn first_alphabetical(imgs: Seq<ImageFile>, k: int) -> int
    decreases k,
{
    if k <= 1 {
        0
    } else {
        let m = first_alphabetical(imgs, k - 1);
        if !bytes_le(image_path_bytes(imgs[m]), image_path_bytes(imgs[k - 1])) {
            k - 1
        } else {
            m
        }
    }
}

pub open spec fn cover_word() -> Seq<u8> {
    seq![99u8, 111u8, 118u8, 101u8, 114u8]
}

pub open spec fn folder_word() -> Seq<u8> {
    seq![102u8, 111u8, 108u8, 100u8, 101u8, 114u8]
}

pub open spec fn front_word() -> Seq<u8> {
    seq![102u8, 114u8, 111u8, 110u8, 116u8]
}

/// The index of the chosen cover among two or more images.
pub open spec fn cover_index(imgs: Seq<ImageFile>, dir_stem: Seq<char>) -> int {
    let n = imgs.len() as int;
    let named = first_named(imgs, lowercase_utf8(dir_stem), n);
    let cover = last_containing(imgs, cover_word(), n);
    let folder = last_containing(imgs, folder_word(), n);
    let front = last_containing(imgs, front_word(), n);
    if named is Some {
        named->0
    } else if cover is Some {
        cover->0
    } else if folder is Some {
        folder->0
    } else if front is Some {
        front->0
    } else {
        first_alphabetical(imgs, n)
    }
}

proof fn lemma_first_named_bound(imgs: Seq<ImageFile>, target: Seq<u8>, k: int)
    ensures
        first_named(imgs, target, k) matches Some(n) ==> 0 <= n < k,
    decreases k,
{
    if k > 0 {
        lemma_first_named_bound(imgs, target, k - 1);
    }
}

proof fn lemma_last_containing_bound(imgs: Seq<ImageFile>, needle: Seq<u8>, k: int)
    ensures
        last_containing(imgs, needle, k) matches Some(n) ==> 0 <= n < k,
    decreases k,
{
    if k > 0 {
        lemma_last_containing_bound(imgs, needle, k - 1);
    }
}

proof fn lemma_first_alphabetical_bound(imgs: Seq<ImageFile>, k: int)
    ensures
        0 <= first_alphabetical(imgs, k) < if k < 1 { 1 } else { k },
    decreases k,
{
    if k > 1 {
        lemma_first_alphabetical_bound(imgs, k - 1);
    }
}

/// The chosen cover is one of the images.
pub proof fn lemma_cover_index_in_range(imgs: Seq<ImageFile>, dir_stem: Seq<char>)
    requires
        imgs.len() > 1,
    ensures
        0 <= cover_index(imgs, dir_stem) < imgs.len(),
{
    let n = imgs.len() as int;
    lemma_first_named_bound(imgs, lowercase_utf8(dir_stem), n);
    lemma_last_containing_bound(imgs, cover_word(), n);
    lemma_last_containing_bound(imgs, folder_word(), n);
    lemma_last_containing_bound(imgs, front_word(), n);
    lemma_first_alphabetical_bound(imgs, n);
}

fn matches_at(hay: &[u8], needle: &[u8], i: usize) -> (r: bool)
    requires
        i + needle@.len() <= hay@.len(),
    ensures
        r == (hay@.subrange(i as int, i + needle@.len()) == needle@),
{
    let n = hay.len();
    let mut j: usize = 0;
    while j < needle.len()
        invariant
            0 <= j <= needle@.len(),
            n == hay@.len(),
            i + needle@.len() <= hay@.len(),
            forall|k: int| 0 <= k < j ==> hay@[i + k] == needle@[k],
        decreases needle@.len() - j,
    {
        if hay[i + j] != needle[j] {
            assert(hay@.subrange(i as int, i + needle@.len())[j as int] != needle@[j as int]);
            return false;
        }
        j = j + 1;
    }
    assert(hay@.subrange(i as int, i + needle@.len()) =~= needle@);
    true
}

fn contains_exec(hay: &[u8], needle: &[u8]) -> (r: bool)
    ensures
        r == contains_bytes(hay@, needle@),
{
    if needle.len() > hay.len() {
        return false;
    }
    let last = hay.len() - needle.len();
    let mut i: usize = 0;
    loop
        invariant
            needle@.len() <= hay@.len(),
            last == hay@.len() - needle@.len(),
            0 <= i <= last,
            forall|k: int| 0 <= k < i ==> #[trigger] hay@.subrange(k, k + needle@.len()) != needle@,
        decreases last - i,
    {
        if matches_at(hay, needle, i) {
            return true;
        }
        if i == last {
            assert forall|k: int| 0 <= k && k + needle@.len() <= hay@.len() implies #[trigger] hay@.subrange(
                k,
                k + needle@.len(),
            ) != needle@ by {
                assert(k <= last);
            }
            return false;
        }
        i = i + 1;
    }
}

/// Picks the cover of a directory whose stem is `dir_stem` among its images:
/// none for no image, the only one for one; otherwise the first whose
/// lowercase name is the directory's lowercase name, else the last whose
/// lowercase name contains "cover", else "folder", else "front", else the
/// first in byte order of its path.
pub fn sort_images(imgs: &Vec<ImageFile>, dir_stem: &String) -> (r: Option<String>)
    ensures
        imgs@.len() == 0 ==> r is None,
        imgs@.len() == 1 ==> (r matches Some(p) && p@ == imgs@[0].path@),
        imgs@.len() > 1 ==> 0 <= cover_index(imgs@, dir_stem@) < imgs@.len() && (r matches Some(p) && p@ == imgs@[cover_index(imgs@, dir_stem@)].path@),
{
    if imgs.len() == 0 {
        return None;
    }
    if imgs.len() == 1 {
        return Some(imgs[0].path.as_str().to_owned());
    }
    let target = lowercase_bytes(dir_stem.as_str());
    let cover: Vec<u8> = vec![99u8, 111u8, 118u8, 101u8, 114u8];
    let folder: Vec<u8> = vec![102u8, 111u8, 108u8, 100u8, 101u8, 114u8];
    let front: Vec<u8> = vec![102u8, 114u8, 111u8, 110u8, 116u8];
    assert(cover@ == cover_word() && folder@ == folder_word() && front@ == front_word());
    let mut named: Option<usize> = None;
    let mut with_cover: Option<usize> = None;
    let mut with_folder: Option<usize> = None;
    let mut with_front: Option<usize> = None;
    let mut first: usize = 0;
    let mut i: usize = 0;
    while i < imgs.len()
        invariant
            1 < imgs@.len(),
            0 <= i <= imgs@.len(),
            target@ == lowercase_utf8(dir_stem@),
            cover@ == cover_word(),
            folder@ == folder_word(),
            front@ == front_word(),
            named matches Some(n) ==> first_named(imgs@, target@, i as int) == Some(n as int),
            named matches Some(n) ==> n < i,
            named is None ==> first_named(imgs@, target@, i as int) is None,
            with_cover matches Some(n) ==> last_containing(imgs@, cover@, i as int) == Some(n as int),
            with_cover matches Some(n) ==> n < i,
            with_cover is None ==> last_containing(imgs@, cover@, i as int) is None,
            with_folder matches Some(n) ==> last_containing(imgs@, folder@, i as int) == Some(n as int),
            with_folder matches Some(n) ==> n < i,
            with_folder is None ==> last_containing(imgs@, folder@, i as int) is None,
            with_front matches Some(n) ==> last_containing(imgs@, front@, i as int) == Some(n as int),
            with_front matches Some(n) ==> n < i,
            with_front is None ==> last_containing(imgs@, front@, i as int) is None,
            i > 0 ==> first == first_alphabetical(imgs@, i as int) && first < i,
            i == 0 ==> first == 0,
        decreases imgs@.len() - i,
    {
        let name = lowercase_bytes(imgs[i].stem.as_str());
        if named.is_none() && bytes_eq(name.as_slice(), target.as_slice()) {
            named = Some(i);
        }
        if contains_exec(name.as_slice(), cover.as_slice()) {
            with_cover = Some(i);
        }
        if contains_exec(name.as_slice(), folder.as_slice()) {
            with_folder = Some(i);
        }
        if contains_exec(name.as_slice(), front.as_slice()) {
            with_front = Some(i);
        }
        if i > 0 && !bytes_le_exec(imgs[first].path.as_str().as_bytes(), imgs[i].path.as_str().as_bytes()) {
            first = i;
        }
        i = i + 1;
    }
    let pick = match named {
        Some(n) => n,
        None => match with_cover {
            Some(n) => n,
            None => match with_folder {
                Some(n) => n,
                None => match with_front {
                    Some(n) => n,
                    None => first,
                },
            },
        },
    };
    proof {
        lemma_cover_index_in_range(imgs@, dir_stem@);
    }
    Some(imgs[pick].path.as_str().to_owned())
}

fn bytes_eq(a: &[u8], b: &[u8]) -> (r: bool)
    ensures
        r == (a@ == b@),
{
    if a.len() != b.len() {
        return false;
    }
    let mut i: usize = 0;
    while i < a.len()
        invariant
            a@.len() == b@.len(),
            0 <= i <= a@.len(),
            forall|k: int| 0 <= k < i ==> a@[k] == b@[k],
        decreases a@.len() - i,
    {
        if a[i] != b[i] {
            return false;
        }
        i = i + 1;
    }
    assert(a@ =~= b@);
    true
}

} // verus!
