//! The main menu's list of saved scenes: which file names are scenes, their
//! names, and the order they are shown in.
use vstd::prelude::*;
use vstd::string::StrSliceExecFns;
use vstd::seq_lib::{to_multiset_build, to_multiset_insert};

verus! {

broadcast use vstd::string::to_string_from_display_ensures_for_str;

/// Lexicographic order of names by code point (which is the byte order of
/// their UTF-8 text, the order `String` sorts in).
pub open spec fn name_le(a: Seq<char>, b: Seq<char>) -> bool
    decreases a.len(),
{
    if a.len() == 0 {
        true
    } else if b.len() == 0 {
        false
    } else if a[0] != b[0] {
        a[0] < b[0]
    } else {
        name_le(a.drop_first(), b.drop_first())
    }
}

proof fn lemma_name_le_total(a: Seq<char>, b: Seq<char>)
    ensures
        name_le(a, b) || name_le(b, a),
    decreases a.len(),
{
    if a.len() > 0 && b.len() > 0 {
        if a[0] == b[0] {
            lemma_name_le_total(a.drop_first(), b.drop_first());
        }
    }
}

proof fn lemma_name_le_trans(a: Seq<char>, b: Seq<char>, c: Seq<char>)
    requires
        name_le(a, b),
        name_le(b, c),
    ensures
        name_le(a, c),
    decreases a.len(),
{
    if a.len() > 0 && b.len() > 0 && c.len() > 0 && a[0] == b[0] && b[0] == c[0] {
        lemma_name_le_trans(a.drop_first(), b.drop_first(), c.drop_first());
    }
}

/// A saved scene file: `<name>.json` with a non-empty name, not hidden.
pub open spec fn is_scene_file(f: Seq<char>) -> bool {
    f.len() > 5 && f.subrange(f.len() - 5, f.len() as int) == ".json"@ && f[0] != '.'
}

/// The scene name of a scene file: the file name without `.json`.
pub open spec fn scene_stem(f: Seq<char>) -> Seq<char> {
    f.subrange(0, f.len() - 5)
}

/// Names of the scene files among `files`, in directory order.
pub open spec fn scene_names_of(files: Seq<Seq<char>>) -> Seq<Seq<char>>
    decreases files.len(),
{
    if files.len() == 0 {
        Seq::empty()
    } else {
        let rest = scene_names_of(files.drop_last());
        if is_scene_file(files.last()) {
            rest.push(scene_stem(files.last()))
        } else {
            rest
        }
    }
}

/// The names are in non-decreasing order.
pub open spec fn sorted_names(s: Seq<Seq<char>>) -> bool {
    forall|i: int, j: int| 0 <= i < j < s.len() ==> name_le(#[trigger] s[i], #[trigger] s[j])
}

/// The characters of a string.
fn chars_of(s: &str) -> (v: Vec<char>)
    ensures
        v@ == s@,
{
    let n = s.unicode_len();
    let mut v: Vec<char> = Vec::new();
    let mut i: usize = 0;
    while i < n
        invariant
            n == s@.len(),
            i <= n,
            v@ == s@.take(i as int),
        decreases n - i,
    {
        v.push(s.get_char(i));
        i = i + 1;
        assert(v@ =~= s@.take(i as int));
    }
    assert(s@.take(n as int) =~= s@);
    v
}

/// `name_le` on character vectors.
fn name_le_exec(a: &Vec<char>, b: &Vec<char>) -> (r: bool)
    ensures
        r == name_le(a@, b@),
{
    let mut i: usize = 0;
    assert(a@.skip(0) =~= a@);
    assert(b@.skip(0) =~= b@);
    while i < a.len() && i < b.len()
        invariant
            i <= a@.len(),
            i <= b@.len(),
            name_le(a@, b@) == name_le(a@.skip(i as int), b@.skip(i as int)),
        decreases a@.len() - i,
    {
        if a[i] != b[i] {
            assert(a@.skip(i as int)[0] == a@[i as int]);
            assert(b@.skip(i as int)[0] == b@[i as int]);
            return a[i] < b[i];
        }
        assert(a@.skip(i as int).drop_first() =~= a@.skip(i + 1));
        assert(b@.skip(i as int).drop_first() =~= b@.skip(i + 1));
        i = i + 1;
    }
    i == a.len()
}

/// The names of the saved scenes among the file names of the scenes
/// directory, sorted: the files named `<name>.json` (not hidden), each
/// contributing its `<name>`.
pub fn saved_scene_names(files: &Vec<String>) -> (r: Vec<String>)
    ensures
        sorted_names(r@.map_values(|s: String| s@)),
        r@.map_values(|s: String| s@).to_multiset() == scene_names_of(
            files@.map_values(|s: String| s@),
        ).to_multiset(),
{
    let ghost fs = files@.map_values(|s: String| s@);
    let mut keys: Vec<Vec<char>> = Vec::new();
    let mut names: Vec<String> = Vec::new();
    let ghost mut taken: Seq<Seq<char>> = Seq::empty();
    assert(keys@.map_values(|v: Vec<char>| v@) =~= taken);
    assert(fs.take(0) =~= Seq::<Seq<char>>::empty());
    let mut k: usize = 0;
    while k < files.len()
        invariant
            k <= files@.len(),
            fs == files@.map_values(|s: String| s@),
            taken == scene_names_of(fs.take(k as int)),
            keys@.len() == names@.len(),
            forall|i: int| 0 <= i < keys@.len() ==> #[trigger] names@[i]@ == keys@[i]@,
            sorted_names(keys@.map_values(|v: Vec<char>| v@)),
            keys@.map_values(|v: Vec<char>| v@).to_multiset() == taken.to_multiset(),
        decreases files@.len() - k,
    {
        let ghost prev = fs.take(k as int);
        let ghost next = fs.take(k + 1);
        assert(next.drop_last() =~= prev);
        assert(next.last() == files@[k as int]@);
        let f = files[k].as_str();
        let fc = chars_of(f);
        let n = fc.len();
        let is_scene = n > 5 && fc[n - 5] == '.' && fc[n - 4] == 'j' && fc[n - 3] == 's' && fc[n - 2]
            == 'o' && fc[n - 1] == 'n' && fc[0] != '.';
        proof {
            reveal_strlit(".json");
            assert(is_scene == is_scene_file(f@)) by {
                if n > 5 {
                    let tail = f@.subrange(n - 5, n as int);
                    if is_scene {
                        assert(tail =~= ".json"@);
                    }
                    if tail == ".json"@ {
                        assert(tail[0] == fc@[n - 5]);
                        assert(tail[1] == fc@[n - 4]);
                        assert(tail[2] == fc@[n - 3]);
                        assert(tail[3] == fc@[n - 2]);
                        assert(tail[4] == fc@[n - 1]);
                    }
                }
            }
        }
        if is_scene {
            let stem_str = f.substring_char(0, n - 5);
            let stem = stem_str.to_string();
            let key = chars_of(stem_str);
            let ghost kv = keys@.map_values(|v: Vec<char>| v@);
            let mut p: usize = 0;
            while p < keys.len() && name_le_exec(&keys[p], &key)
                invariant
                    p <= keys@.len(),
                    kv == keys@.map_values(|v: Vec<char>| v@),
                    forall|q: int| 0 <= q < p ==> name_le(#[trigger] kv[q], key@),
                decreases keys@.len() - p,
            {
                p = p + 1;
            }
            proof {
                assert forall|q: int| p <= q < kv.len() implies name_le(key@, #[trigger] kv[q]) by {
                    assert(kv[p as int] == keys@[p as int]@);
                    lemma_name_le_total(kv[p as int], key@);
                    if q > p {
                        assert(name_le(kv[p as int], kv[q]));
                        lemma_name_le_trans(key@, kv[p as int], kv[q]);
                    }
                }
            }
            let ghost names_before = names@;
            let ghost keys_before = keys@;
            keys.insert(p, key);
            names.insert(p, stem);
            proof {
                let nk = keys@.map_values(|v: Vec<char>| v@);
                assert(nk =~= kv.insert(p as int, scene_stem(f@)));
                to_multiset_insert(kv, p as int, scene_stem(f@));
                to_multiset_build(taken, scene_stem(f@));
                assert forall|i: int, j: int| 0 <= i < j < nk.len() implies name_le(
                    #[trigger] nk[i],
                    #[trigger] nk[j],
                ) by {
                    if j < p {
                    } else if j == p {
                    } else if i < p {
                        lemma_name_le_trans(nk[i], key@, nk[j]);
                    } else if i == p {
                    } else {
                    }
                }
                assert forall|i: int| 0 <= i < keys@.len() implies #[trigger] names@[i]@
                    == keys@[i]@ by {
                    if i < p {
                    } else if i > p {
                        assert(names@[i] == names_before[i - 1]);
                        assert(keys@[i] == keys_before[i - 1]);
                        assert(names_before[i - 1]@ == keys_before[i - 1]@);
                    }
                }
                taken = taken.push(scene_stem(f@));
            }
        }
        k = k + 1;
    }
    proof {
        assert(fs.take(k as int) =~= fs);
        assert(names@.map_values(|s: String| s@) =~= keys@.map_values(|v: Vec<char>| v@));
    }
    names
}

} // verus!
