use vstd::prelude::*;

use crate::brightness::image_brightness;
use crate::error::Error;

verus! {

/// One indexed image: its path and its brightness in millionths.
#[derive(Debug)]
pub struct Wallpaper {
    pub path_str: String,
    pub brightness: u32,
}

/// An entry as the contracts see it: the path's characters and the brightness.
pub open spec fn entry_view(w: Wallpaper) -> (Seq<char>, u32) {
    (w.path_str@, w.brightness)
}

/// A library index as the contracts see it.
pub open spec fn index_view(ws: Seq<Wallpaper>) -> Seq<(Seq<char>, u32)> {
    ws.map_values(|w: Wallpaper| entry_view(w))
}

/// The index that one file adds to `prev`: its entry if it decodes, else nothing.
pub open spec fn index_step(prev: Seq<(Seq<char>, u32)>, file: (Seq<char>, Seq<u8>)) -> Seq<
    (Seq<char>, u32),
> {
    match image_brightness(file.1) {
        Ok(b) => prev.push((file.0, b)),
        Err(_) => prev,
    }
}

/// The index built from `files` (path and contents, in traversal order):
/// one entry per file that decodes, in the same order.
pub open spec fn indexed(files: Seq<(Seq<char>, Seq<u8>)>) -> Seq<(Seq<char>, u32)>
    decreases files.len(),
{
    if files.len() == 0 {
        Seq::empty()
    } else {
        index_step(indexed(files.drop_last()), files.last())
    }
}

/// Distance between two brightness values.
pub open spec fn distance(a: int, b: int) -> int {
    if a >= b {
        a - b
    } else {
        b - a
    }
}

/// `i` is the first entry of `ws` whose brightness is nearest to `target`.
pub open spec fn is_closest(ws: Seq<Wallpaper>, target: int, i: int) -> bool {
    &&& 0 <= i < ws.len()
    &&& forall|j: int|
        0 <= j < ws.len() ==> distance(ws[i].brightness as int, target) <= distance(
            ws[j].brightness as int,
            target,
        )
    &&& forall|j: int|
        0 <= j < i ==> distance(ws[j].brightness as int, target) > distance(
            ws[i].brightness as int,
            target,
        )
}

fn brightness_distance(a: u32, b: u32) -> (r: u32)
    ensures
        r as int == distance(a as int, b as int),
{
    if a >= b {
        a - b
    } else {
        b - a
    }
}

/// Selector: the index of the entry nearest in brightness to `target`; of
/// entries at equal distance the first one wins.
pub fn closest_wallpaper(wallpapers: &Vec<Wallpaper>, target: u32) -> (r: usize)
    requires
        wallpapers@.len() > 0,
    ensures
        is_closest(wallpapers@, target as int, r as int),
{
    let mut closest_i: usize = 0;
    let mut best: u32 = brightness_distance(wallpapers[0].brightness, target);
    let mut i: usize = 1;
    while i < wallpapers.len()
        invariant
            0 < i <= wallpapers@.len(),
            closest_i < i,
            best as int == distance(wallpapers@[closest_i as int].brightness as int, target as int),
            forall|j: int|
                0 <= j < i ==> best as int <= distance(
                    wallpapers@[j].brightness as int,
                    target as int,
                ),
            forall|j: int|
                0 <= j < closest_i ==> distance(wallpapers@[j].brightness as int, target as int)
                    > best as int,
        decreases wallpapers@.len() - i,
    {
        let d = brightness_distance(wallpapers[i].brightness, target);
        if d < best {
            closest_i = i;
            best = d;
        }
        i = i + 1;
    }
    closest_i
}

/// The selector's choice is unique: no two distinct entries are both the first
/// nearest one.
pub proof fn lemma_closest_unique(ws: Seq<Wallpaper>, target: int, i: int, j: int)
    requires
        is_closest(ws, target, i),
        is_closest(ws, target, j),
    ensures
        i == j,
{
    if i < j {
        assert(distance(ws[i].brightness as int, target) > distance(ws[j].brightness as int, target));
    } else if j < i {
        assert(distance(ws[j].brightness as int, target) > distance(ws[i].brightness as int, target));
    }
}

/// Membership in a built index: an entry is there exactly when some file has
/// its path and decodes to its brightness.
pub proof fn lemma_indexed_contains(files: Seq<(Seq<char>, Seq<u8>)>, e: (Seq<char>, u32))
    ensures
        indexed(files).contains(e) <==> exists|i: int|
            0 <= i < files.len() && #[trigger] files[i].0 == e.0 && image_brightness(files[i].1)
                == Ok::<u32, Error>(e.1),
    decreases files.len(),
{
    if files.len() > 0 {
        let prev = files.drop_last();
        lemma_indexed_contains(prev, e);
        let last = files.last();
        if indexed(files).contains(e) {
            match image_brightness(last.1) {
                Ok(b) => {
                    let k = choose|k: int| 0 <= k < indexed(files).len() && indexed(files)[k] == e;
                    if k < indexed(prev).len() {
                        assert(indexed(prev)[k] == e);
                        let i = choose|i: int|
                            0 <= i < prev.len() && #[trigger] prev[i].0 == e.0 && image_brightness(
                                prev[i].1,
                            ) == Ok::<u32, Error>(e.1);
                        assert(files[i] == prev[i]);
                    } else {
                        assert(files[files.len() - 1] == last);
                    }
                },
                Err(_) => {
                    let i = choose|i: int|
                        0 <= i < prev.len() && #[trigger] prev[i].0 == e.0 && image_brightness(
                            prev[i].1,
                        ) == Ok::<u32, Error>(e.1);
                    assert(files[i] == prev[i]);
                },
            }
        }
        if exists|i: int|
            0 <= i < files.len() && #[trigger] files[i].0 == e.0 && image_brightness(files[i].1)
                == Ok::<u32, Error>(e.1) {
            let i = choose|i: int|
                0 <= i < files.len() && #[trigger] files[i].0 == e.0 && image_brightness(
                    files[i].1,
                ) == Ok::<u32, Error>(e.1);
            if i < prev.len() {
                assert(prev[i] == files[i]);
                let k = choose|k: int| 0 <= k < indexed(prev).len() && indexed(prev)[k] == e;
                assert(indexed(files)[k] == e);
            } else {
                assert(indexed(files) == indexed(prev).push(e));
                assert(indexed(files)[indexed(prev).len() as int] == e);
            }
        }
    }
}

/// A rebuild from an unchanged tree gives the same entries, whatever order
/// the traversal visits the files in: the set of `(path, brightness)` pairs
/// depends on the set of files alone.
pub proof fn lemma_rebuild_same_entries(
    files1: Seq<(Seq<char>, Seq<u8>)>,
    files2: Seq<(Seq<char>, Seq<u8>)>,
)
    requires
        files1.to_set() == files2.to_set(),
    ensures
        indexed(files1).to_set() == indexed(files2).to_set(),
{
    assert forall|e: (Seq<char>, u32)|
        indexed(files1).contains(e) <==> indexed(files2).contains(e) by {
        lemma_indexed_contains(files1, e);
        lemma_indexed_contains(files2, e);
        if indexed(files1).contains(e) {
            let i = choose|i: int|
                0 <= i < files1.len() && #[trigger] files1[i].0 == e.0 && image_brightness(
                    files1[i].1,
                ) == Ok::<u32, Error>(e.1);
            assert(files1.to_set().contains(files1[i]));
            assert(files2.contains(files1[i]));
            let j = choose|j: int| 0 <= j < files2.len() && files2[j] == files1[i];
            assert(files2[j].0 == e.0);
        }
        if indexed(files2).contains(e) {
            let i = choose|i: int|
                0 <= i < files2.len() && #[trigger] files2[i].0 == e.0 && image_brightness(
                    files2[i].1,
                ) == Ok::<u32, Error>(e.1);
            assert(files2.to_set().contains(files2[i]));
            assert(files1.contains(files2[i]));
            let j = choose|j: int| 0 <= j < files1.len() && files1[j] == files2[i];
            assert(files1[j].0 == e.0);
        }
    }
    assert(indexed(files1).to_set() =~= indexed(files2).to_set());
}

} // verus!
