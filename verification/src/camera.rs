use vstd::prelude::*;
use vstd::relations::sorted_by;

use crate::order::{lemma_text_order_is_total, text_le, text_le_exec, text_order};
use crate::text::{chars_of, views};

verus! {

/// A device file name of a video device (`video0`, `video12`, ...).
pub open spec fn is_video_device(name: Seq<char>) -> bool {
    name.len() >= 5 && name.take(5) == "video"@
}

/// The device paths of the video devices among `names`, in directory order.
pub open spec fn video_paths(names: Seq<Seq<char>>) -> Seq<Seq<char>> {
    names.filter(|n: Seq<char>| is_video_device(n)).map_values(|n: Seq<char>| "/dev/"@ + n)
}

/// The camera choices offered for the entries `names` of `/dev`: the paths
/// of its video devices, sorted, or a single "No camera found" when there
/// is none.
pub open spec fn camera_list(names: Seq<Seq<char>>) -> Seq<Seq<char>> {
    let found = video_paths(names).sort_by(text_order());
    if found.len() == 0 {
        seq!["No camera found"@]
    } else {
        found
    }
}

/// Whether `a` begins with `p`.
fn starts_with(a: &Vec<char>, p: &Vec<char>) -> (r: bool)
    ensures
        r == (p@.len() <= a@.len() && a@.take(p@.len() as int) == p@),
{
    if p.len() > a.len() {
        return false;
    }
    let mut i: usize = 0;
    while i < p.len()
        invariant
            i <= p.len() <= a.len(),
            forall|j: int| 0 <= j < i ==> a@[j] == p@[j],
        decreases p.len() - i,
    {
        if a[i] != p[i] {
            assert(a@.take(p@.len() as int)[i as int] != p@[i as int]);
            return false;
        }
        i = i + 1;
    }
    assert(a@.take(p@.len() as int) =~= p@);
    true
}

/// The paths of the video devices among `names`, with their characters.
fn collect_video_paths(names: &Vec<String>) -> (r: (Vec<String>, Vec<Vec<char>>))
    ensures
        views(r.0@) == video_paths(views(names@)),
        r.1@.len() == r.0@.len(),
        forall|j: int| 0 <= j < r.1@.len() ==> (#[trigger] r.1@[j])@ == r.0@[j]@,
{
    let ghost pred = |n: Seq<char>| is_video_device(n);
    let ghost prefix = |n: Seq<char>| "/dev/"@ + n;
    let video = chars_of("video");
    let mut paths: Vec<String> = Vec::new();
    let mut keys: Vec<Vec<char>> = Vec::new();
    let mut i: usize = 0;
    proof {
        reveal(Seq::filter);
        assert(views(names@).take(0) =~= Seq::<Seq<char>>::empty());
    }
    while i < names.len()
        invariant
            i <= names.len(),
            video@ == "video"@,
            pred == (|n: Seq<char>| is_video_device(n)),
            prefix == (|n: Seq<char>| "/dev/"@ + n),
            views(paths@) == views(names@).take(i as int).filter(pred).map_values(prefix),
            keys@.len() == paths@.len(),
            forall|j: int| 0 <= j < keys@.len() ==> (#[trigger] keys@[j])@ == paths@[j]@,
        decreases names.len() - i,
    {
        let name = names[i].as_str();
        let k = chars_of(name);
        proof {
            reveal_strlit("video");
        }
        let ghost before = views(names@).take(i as int);
        proof {
            assert(views(names@).take(i + 1) =~= before.push(names@[i as int]@));
            before.lemma_filter_push(names@[i as int]@, pred);
        }
        if starts_with(&k, &video) {
            let mut path = String::from_str("/dev/");
            path.append(name);
            let pk = chars_of(path.as_str());
            let ghost old_paths = paths@;
            paths.push(path);
            keys.push(pk);
            assert(views(paths@) =~= views(old_paths).push(prefix(names@[i as int]@)));
            assert(before.filter(pred).push(names@[i as int]@).map_values(prefix)
                =~= before.filter(pred).map_values(prefix).push(prefix(names@[i as int]@)));
        }
        i = i + 1;
    }
    assert(views(names@).take(names.len() as int) =~= views(names@));
    (paths, keys)
}

/// The camera choices for the file names `names` found in `/dev`: the video
/// devices as `/dev/...` paths in sorted order, or the single entry
/// "No camera found" when there is none.
pub fn camera_choices(names: &Vec<String>) -> (r: Vec<String>)
    ensures
        views(r@) == camera_list(views(names@)),
{
    let (found, keys) = collect_video_paths(names);
    let ghost target = views(found@);
    let ghost leq = text_order();
    proof {
        lemma_text_order_is_total();
    }
    let mut sorted: Vec<String> = Vec::new();
    let mut skeys: Vec<Vec<char>> = Vec::new();
    let mut i: usize = 0;
    assert(target.take(0) =~= Seq::<Seq<char>>::empty());
    assert(views(sorted@) =~= Seq::<Seq<char>>::empty());
    while i < found.len()
        invariant
            i <= found.len() == keys.len(),
            target == views(found@),
            leq == text_order(),
            vstd::relations::total_ordering(leq),
            forall|j: int| 0 <= j < keys@.len() ==> (#[trigger] keys@[j])@ == found@[j]@,
            skeys@.len() == sorted@.len(),
            forall|j: int| 0 <= j < skeys@.len() ==> (#[trigger] skeys@[j])@ == sorted@[j]@,
            sorted_by(views(sorted@), leq),
            views(sorted@).to_multiset() == target.take(i as int).to_multiset(),
        decreases found.len() - i,
    {
        let key = &keys[i];
        // Position after every entry not above `key`.
        let mut p: usize = 0;
        while p < skeys.len() && text_le_exec(&skeys[p], key)
            invariant
                p <= skeys.len() == sorted@.len(),
                forall|j: int| 0 <= j < skeys@.len() ==> (#[trigger] skeys@[j])@ == sorted@[j]@,
                forall|j: int| 0 <= j < p ==> text_le(#[trigger] views(sorted@)[j], key@),
            decreases skeys.len() - p,
        {
            p = p + 1;
        }
        let ghost old_sorted = views(sorted@);
        let ghost k = key@;
        proof {
            if p < skeys.len() {
                assert(!text_le(old_sorted[p as int], k));
                assert(leq(old_sorted[p as int], k) || leq(k, old_sorted[p as int]));
                assert forall|j: int| p <= j < old_sorted.len() implies leq(
                    k,
                    #[trigger] old_sorted[j],
                ) by {
                    assert(leq(old_sorted[p as int], old_sorted[j]) || j == p);
                }
            }
        }
        let s = found[i].clone();
        sorted.insert(p, s);
        skeys.insert(p, keys[i].clone());
        proof {
            let new_sorted = views(sorted@);
            assert(new_sorted =~= old_sorted.insert(p as int, k));
            old_sorted.insert_ensures(p as int, k);
            assert forall|a: int, b: int| 0 <= a < b < new_sorted.len() implies #[trigger] leq(
                new_sorted[a],
                new_sorted[b],
            ) by {
                if b < p {
                    assert(new_sorted[a] == old_sorted[a]);
                    assert(new_sorted[b] == old_sorted[b]);
                } else if b == p {
                    assert(new_sorted[a] == old_sorted[a]);
                } else if a < p {
                    assert(new_sorted[a] == old_sorted[a]);
                    assert(new_sorted[b] == old_sorted[b - 1]);
                } else if a == p {
                    assert(new_sorted[b] == old_sorted[b - 1]);
                } else {
                    assert(new_sorted[a] == old_sorted[a - 1]);
                    assert(new_sorted[b] == old_sorted[b - 1]);
                }
            }
            assert(target.take(i + 1) =~= target.take(i as int).push(k));
            broadcast use vstd::seq_lib::group_to_multiset_ensures;
        }
        i = i + 1;
    }
    proof {
        assert(target.take(found.len() as int) =~= target);
        target.lemma_sort_by_ensures(leq);
        vstd::seq_lib::lemma_sorted_unique(views(sorted@), target.sort_by(leq), leq);
    }
    if sorted.len() == 0 {
        let mut none = Vec::new();
        none.push(String::from_str("No camera found"));
        assert(views(none@) =~= seq!["No camera found"@]);
        none
    } else {
        sorted
    }
}

/// A `/dev/video...` device path.
pub open spec fn is_camera_path(p: Seq<char>) -> bool {
    p.len() >= 5 && p.take(5) == "/dev/"@ && is_video_device(p.skip(5))
}

/// The camera choices are in sorted order, and each is a `/dev/video...`
/// path, unless the list is the lone "No camera found" entry.
pub proof fn law_camera_list_sorted(names: Seq<Seq<char>>)
    ensures
        sorted_by(camera_list(names), text_order()),
        camera_list(names).len() > 0,
        camera_list(names) != seq!["No camera found"@] ==> forall|i: int|
            0 <= i < camera_list(names).len() ==> is_camera_path(#[trigger] camera_list(names)[i]),
{
    lemma_text_order_is_total();
    reveal_strlit("/dev/");
    let paths = video_paths(names);
    paths.lemma_sort_by_ensures(text_order());
    let found = paths.sort_by(text_order());
    let pred = |n: Seq<char>| is_video_device(n);
    if found.len() > 0 {
        broadcast use vstd::seq_lib::group_filter_ensures;

        assert(camera_list(names) == found);
        assert forall|i: int| 0 <= i < found.len() implies is_camera_path(#[trigger] found[i]) by {
            assert(found.contains(found[i]));
            let k = choose|k: int| 0 <= k < paths.len() && paths[k] == found[i];
            let f = names.filter(pred);
            assert(paths[k] == "/dev/"@ + f[k]);
            assert(pred(f[k]));
            assert(("/dev/"@ + f[k]).take(5) =~= "/dev/"@);
            assert(("/dev/"@ + f[k]).skip(5) =~= f[k]);
        }
    } else {
        assert(sorted_by(seq!["No camera found"@], text_order()));
    }
}

} // verus!
