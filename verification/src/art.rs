//! Album art: which embedded picture to show, and in what order to try the image
//! files beside a track.
use vstd::prelude::*;
use crate::text::{chars_eq_ignore_ascii_case, chars_of, eq_ignore_ascii_case};

verus! {

/// An embedded picture: whether it is the front cover, and its bytes.
#[derive(Debug, Clone)]
pub struct PictureInfo {
    pub front_cover: bool,
    pub data: Vec<u8>,
}

/// Index of the first front cover among pictures described by `fronts`.
pub open spec fn first_front(fronts: Seq<bool>) -> Option<int>
    decreases fronts.len(),
{
    if fronts.len() == 0 {
        None
    } else if fronts[0] {
        Some(0)
    } else {
        match first_front(fronts.drop_first()) {
            Some(i) => Some(i + 1),
            None => None,
        }
    }
}

/// The picture to show: the first front cover, else the first picture.
pub open spec fn chosen_picture(pics: Seq<PictureInfo>) -> Option<int> {
    match first_front(pics.map_values(|p: PictureInfo| p.front_cover)) {
        Some(i) => Some(i),
        None => if pics.len() > 0 {
            Some(0)
        } else {
            None
        },
    }
}

proof fn lemma_first_front_step(fronts: Seq<bool>, i: int)
    requires
        0 <= i < fronts.len(),
        forall|k: int| 0 <= k < i ==> !fronts[k],
    ensures
        fronts[i] ==> first_front(fronts) == Some(i),
        first_front(fronts) == (if fronts[i] {
            Some(i)
        } else {
            match first_front(fronts.subrange(i + 1, fronts.len() as int)) {
                Some(j) => Some(j + i + 1),
                None => None,
            }
        }),
    decreases i,
{
    if i > 0 {
        lemma_first_front_step(fronts.drop_first(), i - 1);
        assert(fronts.drop_first().subrange(i, fronts.len() - 1) =~= fronts.subrange(
            i + 1,
            fronts.len() as int,
        ));
    } else {
        assert(fronts.drop_first() =~= fronts.subrange(1, fronts.len() as int));
    }
}

/// The bytes of the picture to show: the first front cover, else the first
/// picture; `None` without pictures.
pub fn choose_picture(pictures: Vec<PictureInfo>) -> (r: Option<Vec<u8>>)
    ensures
        match chosen_picture(pictures@) {
            Some(i) => r matches Some(d) && d@ == pictures@[i].data@,
            None => r is None,
        },
{
    let ghost fronts = pictures@.map_values(|p: PictureInfo| p.front_cover);
    let mut i: usize = 0;
    while i < pictures.len()
        invariant
            i <= pictures@.len(),
            fronts == pictures@.map_values(|p: PictureInfo| p.front_cover),
            forall|k: int| 0 <= k < i ==> !fronts[k],
        decreases pictures@.len() - i,
    {
        if pictures[i].front_cover {
            proof {
                lemma_first_front_step(fronts, i as int);
            }
            return Some(pictures[i].data.clone());
        }
        i = i + 1;
    }
    proof {
        lemma_no_front(fronts);
    }
    if pictures.len() > 0 {
        Some(pictures[0].data.clone())
    } else {
        None
    }
}

proof fn lemma_no_front(fronts: Seq<bool>)
    requires
        forall|k: int| 0 <= k < fronts.len() ==> !fronts[k],
    ensures
        first_front(fronts) is None,
    decreases fronts.len(),
{
    if fronts.len() > 0 {
        lemma_no_front(fronts.drop_first());
    }
}

/// The image file names looked for beside a track, in order of preference.
pub open spec fn sidecar_names() -> Seq<Seq<char>> {
    seq![
        "cover.jpg"@,
        "cover.png"@,
        "folder.jpg"@,
        "folder.png"@,
        "album.jpg"@,
        "album.png"@,
    ]
}

/// The image file names looked for beside a track, in order of preference.
fn sidecar_list() -> (r: Vec<&'static str>)
    ensures
        r@.map_values(|s: &str| s@) == sidecar_names(),
{
    let r = vec!["cover.jpg", "cover.png", "folder.jpg", "folder.png", "album.jpg", "album.png"];
    assert(r@.map_values(|s: &str| s@) =~= sidecar_names());
    r
}

/// Indices below `n` of the names equal to `target` up to ASCII case, ascending.
pub open spec fn matching(names: Seq<Seq<char>>, target: Seq<char>, n: int) -> Seq<usize>
    decreases n,
{
    if n <= 0 {
        Seq::empty()
    } else {
        let prev = matching(names, target, n - 1);
        if eq_ignore_ascii_case(names[n - 1], target) {
            prev.push((n - 1) as usize)
        } else {
            prev
        }
    }
}

/// The order in which to try the files of a directory (by index into `names`): for
/// each sidecar name in turn, the files with that name up to ASCII case.
pub open spec fn sidecar_order_of(names: Seq<Seq<char>>, k: int) -> Seq<usize>
    decreases k,
{
    if k <= 0 {
        Seq::empty()
    } else {
        sidecar_order_of(names, k - 1) + matching(names, sidecar_names()[k - 1], names.len() as int)
    }
}

/// The order in which to try the files of a track's directory, given their names:
/// for each sidecar name in order of preference (`cover.jpg`, `cover.png`,
/// `folder.jpg`, `folder.png`, `album.jpg`, `album.png`), the indices of the files
/// with that name up to ASCII case. The first one that can be read is the art.
pub fn sidecar_order(names: &Vec<String>) -> (order: Vec<usize>)
    ensures
        order@ == sidecar_order_of(names@.map_values(|s: String| s@), 6),
{
    let ghost nv = names@.map_values(|s: String| s@);
    let sidecars = sidecar_list();
    let mut order: Vec<usize> = Vec::new();
    let mut k: usize = 0;
    assert(sidecars@.len() == sidecars@.map_values(|s: &str| s@).len());
    while k < 6
        invariant
            k <= 6,
            sidecars@.len() == 6,
            nv == names@.map_values(|s: String| s@),
            sidecars@.map_values(|s: &str| s@) == sidecar_names(),
            order@ == sidecar_order_of(nv, k as int),
        decreases 6 - k,
    {
        assert(sidecars@.map_values(|s: &str| s@)[k as int] == sidecars@[k as int]@);
        let target = chars_of(sidecars[k]);
        assert(target@ == sidecar_names()[k as int]);
        let ghost before = order@;
        let mut i: usize = 0;
        while i < names.len()
            invariant
                i <= names@.len(),
                nv == names@.map_values(|s: String| s@),
                target@ == sidecar_names()[k as int],
                order@ == before + matching(nv, target@, i as int),
            decreases names@.len() - i,
        {
            let name = chars_of(names[i].as_str());
            assert(name@ == nv[i as int]);
            if chars_eq_ignore_ascii_case(name.as_slice(), target.as_slice()) {
                order.push(i);
                assert(order@ =~= before + matching(nv, target@, i + 1));
            } else {
                assert(order@ =~= before + matching(nv, target@, i + 1));
            }
            i = i + 1;
        }
        k = k + 1;
    }
    order
}

} // verus!
