//! Where `kicad-cli` is looked for, and in what order.
use vstd::prelude::*;
use crate::fields::{lex_lt, lemma_lex_order, lemma_lex_transitive, name_before};
use crate::paths::{first_found, is_absolute_path, joined, path_is_absolute, path_join};
use crate::svg::char_seqs;

verus! {

broadcast use vstd::seq_lib::group_to_multiset_ensures;

/// The operating system the program runs on.
#[derive(Clone, Copy, Debug, PartialEq, Eq, Structural)]
pub enum TargetOs {
    MacOs,
    Windows,
    Other,
}

/// The standard installation paths of `kicad-cli` on each system.
pub open spec fn static_cli_paths(os: TargetOs) -> Seq<Seq<char>> {
    match os {
        TargetOs::MacOs => seq![
            "/Applications/KiCad/KiCad.app/Contents/MacOS/kicad-cli"@,
            "/Applications/KiCad.app/Contents/MacOS/kicad-cli"@,
        ],
        TargetOs::Windows => seq!["C:\\Program Files\\KiCad\\bin\\kicad-cli.exe"@],
        TargetOs::Other => seq!["/usr/bin/kicad-cli"@, "/usr/local/bin/kicad-cli"@, "/app/bin/kicad-cli"@],
    }
}

/// The folder under which Windows installs versioned KiCad folders.
pub open spec fn windows_install_root() -> Seq<char> {
    "C:\\Program Files\\KiCad"@
}

/// Names in non-increasing order.
pub open spec fn descending(s: Seq<Seq<char>>) -> bool {
    forall|i: int, j: int| 0 <= i < j < s.len() ==> !lex_lt(#[trigger] s[i], #[trigger] s[j])
}

proof fn lemma_multiset_insert<A>(s: Seq<A>, i: int, x: A)
    requires
        0 <= i <= s.len(),
    ensures
        s.insert(i, x).to_multiset() =~= s.to_multiset().insert(x),
{
    let t = s.insert(i, x);
    assert(t.remove(i) =~= s);
    assert(t[i] == x);
    assert(t.contains(x));
    let mt = t.to_multiset();
    let ms = s.to_multiset();
    assert(mt.remove(x) =~= ms);
    assert forall|y: A| mt.count(y) == ms.insert(x).count(y) by {
        if y == x {
            assert(mt.count(x) > 0);
        }
    }
}

/// Inserts `x` into a descending list after every name not smaller than it.
fn insert_descending(r: &mut Vec<String>, x: String)
    requires
        descending(char_seqs(old(r)@)),
    ensures
        descending(char_seqs(final(r)@)),
        char_seqs(final(r)@).to_multiset() == char_seqs(old(r)@).to_multiset().insert(x@),
{
    let ghost s = char_seqs(r@);
    let mut idx: usize = 0;
    while idx < r.len() && !name_before(r[idx].as_str(), x.as_str())
        invariant
            s == char_seqs(r@),
            idx <= r@.len(),
            forall|j: int| 0 <= j < idx ==> !lex_lt(#[trigger] s[j], x@),
        decreases r@.len() - idx,
    {
        idx += 1;
    }
    let ghost xv = x@;
    r.insert(idx, x);
    proof {
        let n = char_seqs(r@);
        assert(n =~= s.insert(idx as int, xv));
        lemma_multiset_insert(s, idx as int, xv);
        assert forall|i: int, j: int| 0 <= i < j < n.len() implies !lex_lt(#[trigger] n[i], #[trigger] n[j]) by {
            if i < idx && j < idx {
                assert(n[i] == s[i] && n[j] == s[j]);
            } else if i < idx && j == idx {
                assert(n[i] == s[i]);
                lemma_lex_order(s[i], xv);
                if s[i] != xv {
                    // s[i] is not smaller than x and differs from it, so it is larger
                }
            } else if i < idx && j > idx {
                assert(n[i] == s[i] && n[j] == s[j - 1]);
                if lex_lt(s[i], s[j - 1]) {
                    // s[j-1] <= s[idx] < x <= s[i] would contradict this
                    assert(idx < s.len());
                    assert(lex_lt(s[idx as int], xv));
                    lemma_lex_order(s[i], xv);
                    lemma_lex_order(s[idx as int], s[j - 1]);
                    if j - 1 > idx {
                        assert(!lex_lt(s[idx as int], s[j - 1]));
                        if s[idx as int] != s[j - 1] {
                            lemma_lex_transitive(s[j - 1], s[idx as int], xv);
                        }
                    }
                    if s[i] != xv {
                        lemma_lex_transitive(xv, s[i], s[j - 1]);
                        lemma_lex_transitive(s[i], s[j - 1], xv);
                    }
                    lemma_lex_order(xv, xv);
                }
            } else if i == idx {
                assert(n[j] == s[j - 1]);
                assert(idx < s.len());
                assert(lex_lt(s[idx as int], xv));
                if lex_lt(xv, s[j - 1]) {
                    lemma_lex_transitive(s[idx as int], xv, s[j - 1]);
                    if j - 1 == idx {
                        lemma_lex_order(s[idx as int], s[idx as int]);
                    }
                }
            } else {
                assert(n[i] == s[i - 1] && n[j] == s[j - 1]);
            }
        }
    }
}

/// Versioned install folder names, newest (greatest name) first.
pub fn order_install_dirs(names: &Vec<String>) -> (res: Vec<String>)
    ensures
        descending(char_seqs(res@)),
        char_seqs(res@).to_multiset() == char_seqs(names@).to_multiset(),
{
    let mut res: Vec<String> = Vec::new();
    let mut i: usize = 0;
    while i < names.len()
        invariant
            i <= names@.len(),
            descending(char_seqs(res@)),
            char_seqs(res@).to_multiset() == char_seqs(names@).take(i as int).to_multiset(),
        decreases names@.len() - i,
    {
        assert(char_seqs(names@).take(i + 1) == char_seqs(names@).take(i as int).push(names@[i as int]@));
        insert_descending(&mut res, names[i].clone());
        i += 1;
    }
    assert(char_seqs(names@).take(names@.len() as int) =~= char_seqs(names@));
    res
}

/// The places `kicad-cli` is looked for after the command search path: on
/// Windows the `bin\kicad-cli.exe` of each versioned install folder, newest
/// first, then the system's standard installation paths.
pub open spec fn cli_search_paths(os: TargetOs, ordered_dirs: Seq<Seq<char>>) -> Seq<Seq<char>> {
    let versioned = match os {
        TargetOs::Windows => Seq::new(
            ordered_dirs.len(),
            |i: int| joined(joined(joined(windows_install_root(), ordered_dirs[i]), "bin"@), "kicad-cli.exe"@),
        ),
        _ => Seq::empty(),
    };
    versioned + static_cli_paths(os)
}

fn static_paths(os: TargetOs) -> (res: Vec<String>)
    ensures
        char_seqs(res@) == static_cli_paths(os),
{
    let v = match os {
        TargetOs::MacOs => vec![
            String::from_str("/Applications/KiCad/KiCad.app/Contents/MacOS/kicad-cli"),
            String::from_str("/Applications/KiCad.app/Contents/MacOS/kicad-cli"),
        ],
        TargetOs::Windows => vec![String::from_str("C:\\Program Files\\KiCad\\bin\\kicad-cli.exe")],
        TargetOs::Other => vec![
            String::from_str("/usr/bin/kicad-cli"),
            String::from_str("/usr/local/bin/kicad-cli"),
            String::from_str("/app/bin/kicad-cli"),
        ],
    };
    assert(char_seqs(v@) =~= static_cli_paths(os));
    v
}

/// The file name of the `kicad-cli` executable on each system.
pub open spec fn cli_exe_name(os: TargetOs) -> Seq<char> {
    match os {
        TargetOs::Windows => "kicad-cli.exe"@,
        _ => "kicad-cli"@,
    }
}

/// The places on the command search path where `kicad-cli` is looked for
/// first: the executable's file name in each absolute folder of `dirs`, in order.
pub open spec fn path_candidates(os: TargetOs, dirs: Seq<Seq<char>>) -> Seq<Seq<char>>
    decreases dirs.len(),
{
    if dirs.len() == 0 {
        Seq::empty()
    } else {
        let rest = path_candidates(os, dirs.drop_last());
        if is_absolute_path(dirs.last()) {
            rest.push(joined(dirs.last(), cli_exe_name(os)))
        } else {
            rest
        }
    }
}

fn path_cli_candidates(os: TargetOs, path_dirs: &Vec<String>) -> (res: Vec<String>)
    ensures
        char_seqs(res@) == path_candidates(os, char_seqs(path_dirs@)),
{
    let name = match os {
        TargetOs::Windows => "kicad-cli.exe",
        _ => "kicad-cli",
    };
    proof {
        reveal_strlit("kicad-cli.exe");
        reveal_strlit("kicad-cli");
    }
    assert(name@ == cli_exe_name(os));
    let mut res: Vec<String> = Vec::new();
    let mut i: usize = 0;
    while i < path_dirs.len()
        invariant
            i <= path_dirs@.len(),
            name@ == cli_exe_name(os),
            char_seqs(res@) == path_candidates(os, char_seqs(path_dirs@).take(i as int)),
        decreases path_dirs@.len() - i,
    {
        let ghost before = char_seqs(res@);
        proof {
            assert(char_seqs(path_dirs@).take(i + 1).drop_last() =~= char_seqs(path_dirs@).take(i as int));
            assert(char_seqs(path_dirs@).take(i + 1).last() == path_dirs@[i as int]@);
        }
        if path_is_absolute(path_dirs[i].as_str()) {
            res.push(path_join(path_dirs[i].as_str(), name));
            assert(char_seqs(res@) =~= before.push(joined(path_dirs@[i as int]@, name@)));
        }
        i += 1;
    }
    assert(char_seqs(path_dirs@).take(path_dirs@.len() as int) =~= char_seqs(path_dirs@));
    res
}

/// The paths to probe for `kicad-cli`, in order: the executable in each
/// absolute folder of the command search path `path_dirs`, then (see
/// `cli_search_paths`) the Windows install folders named `install_dirs`,
/// newest first, and the standard installation paths.
pub fn kicad_cli_search_paths(os: TargetOs, path_dirs: &Vec<String>, install_dirs: &Vec<String>) -> (res: Vec<String>)
    ensures
        exists|ordered: Seq<Seq<char>>| {
            &&& descending(ordered)
            &&& ordered.to_multiset() == char_seqs(install_dirs@).to_multiset()
            &&& char_seqs(res@) == path_candidates(os, char_seqs(path_dirs@)) + cli_search_paths(os, ordered)
        },
{
    let mut res = path_cli_candidates(os, path_dirs);
    let rest = install_search_paths(os, install_dirs);
    let ghost ordered = choose|ordered: Seq<Seq<char>>| {
        &&& descending(ordered)
        &&& ordered.to_multiset() == char_seqs(install_dirs@).to_multiset()
        &&& char_seqs(rest@) == cli_search_paths(os, ordered)
    };
    let ghost head = char_seqs(res@);
    let mut k: usize = 0;
    while k < rest.len()
        invariant
            k <= rest@.len(),
            char_seqs(res@) == head + char_seqs(rest@).take(k as int),
        decreases rest@.len() - k,
    {
        let ghost before = char_seqs(res@);
        res.push(rest[k].clone());
        assert(char_seqs(res@) =~= before.push(rest@[k as int]@));
        assert(char_seqs(rest@).take(k + 1) == char_seqs(rest@).take(k as int).push(rest@[k as int]@));
        k += 1;
    }
    assert(char_seqs(rest@).take(rest@.len() as int) =~= char_seqs(rest@));
    res
}

/// The install-folder and standard paths to probe for `kicad-cli`, in order,
/// given the names of the folders in the Windows install root (ignored on
/// other systems).
fn install_search_paths(os: TargetOs, install_dirs: &Vec<String>) -> (res: Vec<String>)
    ensures
        exists|ordered: Seq<Seq<char>>| {
            &&& descending(ordered)
            &&& ordered.to_multiset() == char_seqs(install_dirs@).to_multiset()
            &&& char_seqs(res@) == cli_search_paths(os, ordered)
        },
{
    let ordered = order_install_dirs(install_dirs);
    let mut res: Vec<String> = Vec::new();
    match os {
        TargetOs::Windows => {
            let mut i: usize = 0;
            while i < ordered.len()
                invariant
                    i <= ordered@.len(),
                    res@.len() == i,
                    forall|j: int| 0 <= j < i ==> #[trigger] res@[j]@ == joined(
                        joined(joined(windows_install_root(), ordered@[j]@), "bin"@),
                        "kicad-cli.exe"@,
                    ),
                decreases ordered@.len() - i,
            {
                let d = path_join("C:\\Program Files\\KiCad", ordered[i].as_str());
                let b = path_join(d.as_str(), "bin");
                res.push(path_join(b.as_str(), "kicad-cli.exe"));
                i += 1;
            }
        },
        _ => {},
    }
    let ghost head = char_seqs(res@);
    let tail = static_paths(os);
    let mut k: usize = 0;
    while k < tail.len()
        invariant
            k <= tail@.len(),
            char_seqs(res@) == head + char_seqs(tail@).take(k as int),
        decreases tail@.len() - k,
    {
        let ghost before = char_seqs(res@);
        res.push(tail[k].clone());
        assert(char_seqs(res@) =~= before.push(tail@[k as int]@));
        assert(char_seqs(tail@).take(k + 1) == char_seqs(tail@).take(k as int).push(tail@[k as int]@));
        k += 1;
    }
    assert(char_seqs(tail@).take(tail@.len() as int) =~= char_seqs(tail@));
    proof {
        let ord = char_seqs(ordered@);
        match os {
            TargetOs::Windows => {
                assert(head =~= Seq::new(
                    ord.len(),
                    |i: int| joined(joined(joined(windows_install_root(), ord[i]), "bin"@), "kicad-cli.exe"@),
                ));
            },
            _ => {
                assert(head =~= Seq::<Seq<char>>::empty());
            },
        }
        assert(char_seqs(res@) =~= cli_search_paths(os, ord));
    }
    res
}

/// The error given when `kicad-cli` is nowhere to be found.
pub open spec fn cli_not_found_message() -> Seq<char> {
    "kicad-cli executable could not be found in PATH or standard installation directories."@
}

/// The `kicad-cli` to run: the first search path whose probe found the file
/// (`found[i]` for `paths[i]`), or the not-found error.
pub fn select_kicad_cli(paths: &Vec<String>, found: &Vec<bool>) -> (res: Result<String, String>)
    ensures
        match first_found(found@, paths@.len() as int) {
            Some(i) => res matches Ok(p) && p@ == paths@[i]@,
            None => res matches Err(m) && m@ == cli_not_found_message(),
        },
{
    let mut i: usize = 0;
    while i < paths.len()
        invariant
            i <= paths@.len(),
            first_found(found@, i as int) is None,
        decreases paths@.len() - i,
    {
        if i < found.len() && found[i] {
            proof {
                crate::paths::lemma_first_found_after(found@, (i + 1) as int, paths@.len() as int);
            }
            return Ok(paths[i].clone());
        }
        i += 1;
    }
    Err(String::from_str("kicad-cli executable could not be found in PATH or standard installation directories."))
}

} // verus!
