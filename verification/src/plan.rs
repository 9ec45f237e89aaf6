//! Which of the files found under an input directory are sprite files, and
//! where the output of each belongs.
//!
//! A path is held as the sequence of its components; no separator is
//! parsed here.

use vstd::prelude::*;
use vstd::string::StrSliceExecFns;

verus! {

/// Whether `ext` is one of the two extensions of a sprite file. The
/// comparison is exact: letter case counts.
pub open spec fn is_sprite_extension(ext: Seq<char>) -> bool {
    ext == seq!['a', 's', 'e'] || ext == seq!['a', 's', 'e', 'p', 'r', 'i', 't', 'e']
}

/// Whether two strings hold the same characters.
pub fn same_text(left: &str, right: &str) -> (same: bool)
    ensures
        same == (left@ == right@),
{
    let n: usize = left.unicode_len();
    if right.unicode_len() != n {
        return false;
    }
    let mut i: usize = 0;
    while i < n
        invariant
            i <= n,
            n == left@.len(),
            n == right@.len(),
            forall|k: int| 0 <= k < i ==> left@[k] == right@[k],
        decreases n - i,
    {
        if left.get_char(i) != right.get_char(i) {
            return false;
        }
        i += 1;
    }
    assert(left@ =~= right@);
    true
}

/// Whether a file with this extension is a sprite file: one whose
/// extension is exactly `ase` or `aseprite`.
pub fn is_ase_extension(ext: Option<&str>) -> (eligible: bool)
    ensures
        eligible == (ext matches Some(e) && is_sprite_extension(e@)),
{
    match ext {
        Some(e) => {
            proof {
                reveal_strlit("aseprite");
                reveal_strlit("ase");
                assert("ase"@ =~= seq!['a', 's', 'e']);
                assert("aseprite"@ =~= seq!['a', 's', 'e', 'p', 'r', 'i', 't', 'e']);
            }
            same_text(e, "aseprite") || same_text(e, "ase")
        },
        None => false,
    }
}

/// The position of the last dot among the first `n` characters of `name`,
/// or -1 where there is none.
pub open spec fn last_dot(name: Seq<char>, n: nat) -> int
    decreases n,
{
    if n == 0 {
        -1
    } else if name[n - 1] == '.' {
        n - 1
    } else {
        last_dot(name, (n - 1) as nat)
    }
}

/// [`last_dot`] is the greatest position below `n` that holds a dot.
pub proof fn lemma_last_dot(name: Seq<char>, n: nat)
    ensures
        -1 <= last_dot(name, n) < n,
        last_dot(name, n) >= 0 ==> name[last_dot(name, n)] == '.',
        forall|k: int| last_dot(name, n) < k < n ==> name[k] != '.',
    decreases n,
{
    if n > 0 {
        lemma_last_dot(name, (n - 1) as nat);
    }
}

/// The extension of a file name: what follows its last dot. A name
/// without a dot has none, nor has a name whose only dot comes first, nor
/// the name `..`.
pub open spec fn extension_of(name: Seq<char>) -> Option<Seq<char>> {
    let dot = last_dot(name, name.len());
    if dot <= 0 || name == seq!['.', '.'] {
        None
    } else {
        Some(name.skip(dot + 1))
    }
}

/// Computes [`extension_of`].
pub fn file_extension(name: &str) -> (ext: Option<String>)
    ensures
        match ext {
            Some(e) => extension_of(name@) == Some(e@),
            None => extension_of(name@) is None,
        },
{
    let n: usize = name.unicode_len();
    let mut dot: Option<usize> = None;
    let mut i: usize = 0;
    for c in it: name.chars()
        invariant
            i == it.index(),
            it.seq() == name@,
            n == name@.len(),
            match dot {
                Some(d) => d == last_dot(name@, i as nat),
                None => last_dot(name@, i as nat) == -1,
            },
    {
        if c == '.' {
            dot = Some(i);
        }
        i += 1;
    }
    proof {
        lemma_last_dot(name@, n as nat);
    }
    match dot {
        None => None,
        Some(d) => {
            if d == 0 || (n == 2 && d == 1 && name.get_char(0) == '.') {
                proof {
                    if d != 0 {
                        assert(name@ =~= seq!['.', '.']);
                    }
                }
                None
            } else {
                proof {
                    if name@ == seq!['.', '.'] {
                        assert(name@[0] == '.');
                        assert(last_dot(name@, 2) == 1);
                    }
                }
                let tail = name.substring_char(d + 1, n);
                assert(name@.subrange(d + 1, n as int) =~= name@.skip(d + 1));
                Some(tail.to_owned())
            }
        },
    }
}

/// A path as the sequence of its components.
pub open spec fn components(path: Vec<String>) -> Seq<Seq<char>> {
    path@.map_values(|part: String| part@)
}

/// Where the output of `path` belongs: the part of `path` below
/// `input_root`, placed under `output_root`. A path that does not lie under
/// `input_root` has no such place.
pub open spec fn mirrored(
    input_root: Seq<Seq<char>>,
    output_root: Seq<Seq<char>>,
    path: Seq<Seq<char>>,
) -> Option<Seq<Seq<char>>> {
    if input_root.is_prefix_of(path) {
        Some(output_root + path.skip(input_root.len() as int))
    } else {
        None
    }
}

/// Whether a path names a sprite file: its last component has the
/// extension `ase` or `aseprite`.
pub open spec fn eligible(path: Seq<Seq<char>>) -> bool {
    &&& path.len() > 0
    &&& extension_of(path.last()) matches Some(ext)
    &&& is_sprite_extension(ext)
}

/// One file of a batch: where it is read and where its output is written.
#[derive(Clone, Debug, PartialEq, Eq)]
pub struct PlannedFile {
    pub input: Vec<String>,
    pub output: Vec<String>,
}

impl View for PlannedFile {
    type V = (Seq<Seq<char>>, Seq<Seq<char>>);

    open spec fn view(&self) -> (Seq<Seq<char>>, Seq<Seq<char>>) {
        (components(self.input), components(self.output))
    }
}

/// The plan for the first `n` of the paths found: each eligible path under
/// `input_root`, in the order found, paired with its mirrored output path.
pub open spec fn planned(
    input_root: Seq<Seq<char>>,
    output_root: Seq<Seq<char>>,
    found: Seq<Seq<Seq<char>>>,
    n: nat,
) -> Seq<(Seq<Seq<char>>, Seq<Seq<char>>)>
    decreases n,
{
    if n == 0 {
        Seq::empty()
    } else {
        let earlier = planned(input_root, output_root, found, (n - 1) as nat);
        let path = found[n - 1];
        match mirrored(input_root, output_root, path) {
            Some(output) => if eligible(path) {
                earlier.push((path, output))
            } else {
                earlier
            },
            None => earlier,
        }
    }
}

/// What a plan holds: each of its entries is an eligible path among those
/// found, paired with its mirrored output path; and every eligible path
/// under the input root has its entry.
pub proof fn lemma_planned_members(
    input_root: Seq<Seq<char>>,
    output_root: Seq<Seq<char>>,
    found: Seq<Seq<Seq<char>>>,
    n: nat,
)
    requires
        n <= found.len(),
    ensures
        planned(input_root, output_root, found, n).len() <= n,
        forall|k: int|
            0 <= k < planned(input_root, output_root, found, n).len() ==> {
                let entry = #[trigger] planned(input_root, output_root, found, n)[k];
                &&& eligible(entry.0)
                &&& mirrored(input_root, output_root, entry.0) == Some(entry.1)
                &&& exists|i: int| 0 <= i < n && found[i] == entry.0
            },
        forall|i: int|
            0 <= i < n && eligible(#[trigger] found[i]) && input_root.is_prefix_of(found[i])
                ==> exists|k: int|
                0 <= k < planned(input_root, output_root, found, n).len() && planned(
                    input_root,
                    output_root,
                    found,
                    n,
                )[k].0 == found[i],
    decreases n,
{
    if n > 0 {
        let earlier = planned(input_root, output_root, found, (n - 1) as nat);
        let now = planned(input_root, output_root, found, n);
        lemma_planned_members(input_root, output_root, found, (n - 1) as nat);
        assert forall|k: int| 0 <= k < now.len() implies {
            let entry = #[trigger] now[k];
            &&& eligible(entry.0)
            &&& mirrored(input_root, output_root, entry.0) == Some(entry.1)
            &&& exists|i: int| 0 <= i < n && found[i] == entry.0
        } by {
            if k < earlier.len() {
                assert(now[k] == earlier[k]);
                let i = choose|i: int| 0 <= i < n - 1 && found[i] == earlier[k].0;
                assert(0 <= i < n && found[i] == now[k].0);
            } else {
                assert(found[n - 1] == now[k].0);
            }
        }
        assert forall|i: int|
            0 <= i < n && eligible(#[trigger] found[i]) && input_root.is_prefix_of(
                found[i],
            ) implies exists|k: int| 0 <= k < now.len() && now[k].0 == found[i] by {
            if i < n - 1 {
                let k = choose|k: int| 0 <= k < earlier.len() && earlier[k].0 == found[i];
                assert(now[k].0 == found[i]);
            } else {
                assert(now[now.len() - 1].0 == found[i]);
            }
        }
    }
}

/// Whether the components of `root` are the first components of `path`.
pub fn starts_with(path: &Vec<String>, root: &Vec<String>) -> (under: bool)
    ensures
        under == components(*root).is_prefix_of(components(*path)),
{
    let n: usize = root.len();
    if path.len() < n {
        return false;
    }
    let mut i: usize = 0;
    while i < n
        invariant
            i <= n,
            n == root@.len(),
            n <= path@.len(),
            forall|k: int| 0 <= k < i ==> components(*root)[k] == components(*path)[k],
        decreases n - i,
    {
        if root[i] != path[i] {
            assert(components(*root)[i as int] != components(*path).subrange(0, n as int)[i as int]);
            return false;
        }
        i += 1;
    }
    assert(components(*root) =~= components(*path).subrange(0, n as int));
    true
}

/// Computes [`mirrored`]: the output path of `path`, or `None` where `path`
/// does not lie under `input_root`.
pub fn mirror_path(input_root: &Vec<String>, output_root: &Vec<String>, path: &Vec<String>) -> (output:
    Option<Vec<String>>)
    ensures
        match output {
            Some(out) => mirrored(
                components(*input_root),
                components(*output_root),
                components(*path),
            ) == Some(components(out)),
            None => mirrored(components(*input_root), components(*output_root), components(*path))
                is None,
        },
{
    if !starts_with(path, input_root) {
        return None;
    }
    let mut out: Vec<String> = Vec::new();
    let head: usize = output_root.len();
    let mut i: usize = 0;
    while i < head
        invariant
            i <= head,
            head == output_root@.len(),
            components(out) == components(*output_root).take(i as int),
        decreases head - i,
    {
        let ghost before = components(out);
        out.push(output_root[i].clone());
        assert(components(out) =~= before.push(output_root[i as int]@));
        assert(components(out) =~= components(*output_root).take(i + 1));
        i += 1;
    }
    let skip: usize = input_root.len();
    let n: usize = path.len();
    let mut k: usize = skip;
    while k < n
        invariant
            skip <= k <= n,
            n == path@.len(),
            components(out) == components(*output_root) + components(*path).subrange(
                skip as int,
                k as int,
            ),
        decreases n - k,
    {
        let ghost before = components(out);
        out.push(path[k].clone());
        assert(components(out) =~= before.push(path[k as int]@));
        assert(components(out) =~= components(*output_root) + components(*path).subrange(
            skip as int,
            k + 1,
        ));
        k += 1;
    }
    assert(components(*path).subrange(skip as int, n as int) =~= components(*path).skip(
        skip as int,
    ));
    Some(out)
}

/// Whether `path` names a sprite file. Computes [`eligible`].
pub fn is_sprite_path(path: &Vec<String>) -> (sprite: bool)
    ensures
        sprite == eligible(components(*path)),
{
    let n: usize = path.len();
    if n == 0 {
        return false;
    }
    match file_extension(path[n - 1].as_str()) {
        Some(ext) => is_ase_extension(Some(ext.as_str())),
        None => false,
    }
}

/// Plans a batch from the paths found under the input directory.
///
/// The paths are taken in the order given. Each path that names a sprite
/// file and lies under `input_root` is paired with its output path, which
/// mirrors under `output_root` its place under `input_root`. Every other
/// path is left out.
pub fn plan_batch(input_root: &Vec<String>, output_root: &Vec<String>, found: &Vec<Vec<String>>) -> (plan:
    Vec<PlannedFile>)
    ensures
        plan@.map_values(|file: PlannedFile| file@) == planned(
            components(*input_root),
            components(*output_root),
            found@.map_values(|path: Vec<String>| components(path)),
            found@.len(),
        ),
{
    let mut plan: Vec<PlannedFile> = Vec::new();
    let n: usize = found.len();
    let mut i: usize = 0;
    while i < n
        invariant
            i <= n,
            n == found@.len(),
            plan@.map_values(|file: PlannedFile| file@) == planned(
                components(*input_root),
                components(*output_root),
                found@.map_values(|path: Vec<String>| components(path)),
                i as nat,
            ),
        decreases n - i,
    {
        let path = &found[i];
        let ghost earlier = plan@.map_values(|file: PlannedFile| file@);
        if is_sprite_path(path) {
            match mirror_path(input_root, output_root, path) {
                Some(output) => {
                    let file = PlannedFile { input: path.clone(), output };
                    plan.push(file);
                    assert(plan@.map_values(|file: PlannedFile| file@) =~= earlier.push(file@));
                },
                None => {},
            }
        }
        i += 1;
    }
    plan
}

} // verus!
