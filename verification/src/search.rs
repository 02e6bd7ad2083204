//! The global search (`cdx -g <query>`): the ripgrep exclusions, which found
//! paths match the query by name, the paths left to the priority roots, and
//! the merge of the three searches' results.
use vstd::prelude::*;

use crate::config::{strings_view, Config};
use crate::grep::{args_view, glob_args, has_glob, lemma_globs_held, push_glob_args};
use crate::paths::{path_file_name, path_starts_with, spec_file_name, spec_path_starts_with};
use crate::text::{chars_contain, chars_of, has_infix, spec_to_lowercase, str_to_lowercase};

verus! {

/// `--glob !<pattern>` for every excluded directory, Windows system
/// directory and path pattern, in that order.
pub open spec fn exclude_args_spec(cfg: Config) -> Seq<Seq<char>> {
    glob_args(strings_view(cfg.exclude_dirs@)) + glob_args(strings_view(cfg.exclude_win_dirs@))
        + glob_args(strings_view(cfg.exclude_path_globs@))
}

/// The exclusions every ripgrep run of the global search is given.
pub fn build_exclude_args(cfg: &Config) -> (r: Vec<String>)
    ensures
        args_view(r@) == exclude_args_spec(*cfg),
{
    let mut args: Vec<String> = Vec::new();
    push_glob_args(&mut args, &cfg.exclude_dirs);
    push_glob_args(&mut args, &cfg.exclude_win_dirs);
    push_glob_args(&mut args, &cfg.exclude_path_globs);
    assert(args_view(args@) =~= exclude_args_spec(*cfg));
    args
}

/// Every excluded directory, Windows system directory and path pattern is
/// left out of the global search, as `--glob !<pattern>`.
pub proof fn law_exclude_args_cover_the_settings(cfg: Config)
    ensures
        forall|k: int| 0 <= k < cfg.exclude_dirs@.len() ==> has_glob(exclude_args_spec(cfg), #[trigger] cfg.exclude_dirs@[k]@),
        forall|k: int|
            0 <= k < cfg.exclude_win_dirs@.len() ==> has_glob(exclude_args_spec(cfg), #[trigger] cfg.exclude_win_dirs@[k]@),
        forall|k: int|
            0 <= k < cfg.exclude_path_globs@.len() ==> has_glob(exclude_args_spec(cfg), #[trigger] cfg.exclude_path_globs@[k]@),
{
    let e: Seq<Seq<char>> = Seq::empty();
    let gd = glob_args(strings_view(cfg.exclude_dirs@));
    let gw = glob_args(strings_view(cfg.exclude_win_dirs@));
    let gp = glob_args(strings_view(cfg.exclude_path_globs@));
    let a = exclude_args_spec(cfg);
    lemma_globs_held(e, strings_view(cfg.exclude_dirs@), gw + gp);
    assert(a =~= e + gd + (gw + gp));
    assert forall|k: int| 0 <= k < cfg.exclude_dirs@.len() implies has_glob(a, #[trigger] cfg.exclude_dirs@[k]@) by {
        assert(strings_view(cfg.exclude_dirs@)[k] == cfg.exclude_dirs@[k]@);
    }
    lemma_globs_held(gd, strings_view(cfg.exclude_win_dirs@), gp);
    assert forall|k: int| 0 <= k < cfg.exclude_win_dirs@.len() implies has_glob(a, #[trigger] cfg.exclude_win_dirs@[k]@) by {
        assert(strings_view(cfg.exclude_win_dirs@)[k] == cfg.exclude_win_dirs@[k]@);
    }
    lemma_globs_held(gd + gw, strings_view(cfg.exclude_path_globs@), e);
    assert(a =~= gd + gw + gp + e);
    assert forall|k: int| 0 <= k < cfg.exclude_path_globs@.len() implies has_glob(a, #[trigger] cfg.exclude_path_globs@[k]@) by {
        assert(strings_view(cfg.exclude_path_globs@)[k] == cfg.exclude_path_globs@[k]@);
    }
}

/// Whether `path` lies under one of the roots (component-wise).
pub open spec fn under_any(path: Seq<char>, roots: Seq<String>) -> bool {
    exists|i: int| 0 <= i < roots.len() && spec_path_starts_with(path, #[trigger] roots[i]@)
}

/// Whether `path` lies under one of `roots`.
pub fn is_under_any(path: &str, roots: &Vec<String>) -> (r: bool)
    ensures
        r == under_any(path@, roots@),
{
    let mut i: usize = 0;
    while i < roots.len()
        invariant
            i <= roots@.len(),
            forall|j: int| 0 <= j < i ==> !spec_path_starts_with(path@, #[trigger] roots@[j]@),
        decreases roots.len() - i,
    {
        if path_starts_with(path, roots[i].as_str()) {
            return true;
        }
        i = i + 1;
    }
    false
}

pub open spec fn texts_view(v: Seq<String>) -> Seq<Seq<char>> {
    v.map_values(|s: String| s@)
}

/// The paths that lie under none of the roots, in order.
pub open spec fn outside_roots(paths: Seq<Seq<char>>, roots: Seq<String>) -> Seq<Seq<char>>
    decreases paths.len(),
{
    if paths.len() == 0 {
        Seq::empty()
    } else {
        let prev = outside_roots(paths.drop_last(), roots);
        if under_any(paths.last(), roots) {
            prev
        } else {
            prev.push(paths.last())
        }
    }
}

/// The found paths that lie under none of the priority roots (those were
/// searched on their own), in order.
pub fn drop_under_priority(paths: Vec<String>, priority: &Vec<String>) -> (r: Vec<String>)
    ensures
        texts_view(r@) == outside_roots(texts_view(paths@), priority@),
{
    let ghost pv = texts_view(paths@);
    let mut out: Vec<String> = Vec::new();
    let mut i: usize = 0;
    while i < paths.len()
        invariant
            i <= paths@.len(),
            pv == texts_view(paths@),
            texts_view(out@) == outside_roots(pv.take(i as int), priority@),
        decreases paths.len() - i,
    {
        proof {
            assert(pv.take(i + 1).drop_last() =~= pv.take(i as int));
            assert(pv.take(i + 1).last() == paths@[i as int]@);
        }
        if !is_under_any(paths[i].as_str(), priority) {
            let p = paths[i].clone();
            proof {
                assert(texts_view(out@.push(p)) =~= texts_view(out@).push(p@));
            }
            out.push(p);
        }
        i = i + 1;
    }
    assert(pv.take(paths@.len() as int) =~= pv);
    out
}

/// A search phase's paths: those found under the priority roots, searched
/// first, then those the search of the home directory found outside every
/// priority root, each list in its order.
pub fn join_phase(primary: Vec<String>, secondary: Vec<String>, priority: &Vec<String>) -> (r: Vec<String>)
    ensures
        texts_view(r@) == texts_view(primary@) + outside_roots(texts_view(secondary@), priority@),
{
    let mut out = primary;
    let ghost pv = texts_view(out@);
    let mut rest = drop_under_priority(secondary, priority);
    let ghost rv = texts_view(rest@);
    out.append(&mut rest);
    assert(texts_view(out@) =~= pv + rv);
    out
}

/// Whether a name holds the query, both lowercased.
pub open spec fn name_holds(name: Seq<char>, query: Seq<char>) -> bool {
    has_infix(spec_to_lowercase(name), spec_to_lowercase(query))
}

/// Whether the name `name` holds `query`, without regard to case.
pub fn name_contains(name: &str, query: &str) -> (r: bool)
    ensures
        r == name_holds(name@, query@),
{
    let n = str_to_lowercase(name);
    let q = str_to_lowercase(query);
    let nc = chars_of(n.as_str());
    let qc = chars_of(q.as_str());
    chars_contain(nc.as_slice(), qc.as_slice())
}

/// Whether a found file's name (its final component) holds the query,
/// without regard to case.
pub open spec fn file_name_holds(path: Seq<char>, query: Seq<char>) -> bool {
    match spec_file_name(path) {
        Some(n) => name_holds(n, query),
        None => false,
    }
}

/// Whether the file at `path` matches the query by name.
pub fn file_name_matches(path: &str, query: &str) -> (r: bool)
    ensures
        r == file_name_holds(path@, query@),
{
    match path_file_name(path) {
        Some(n) => name_contains(n.as_str(), query),
        None => false,
    }
}

/// The paths, each once, in the order of their first occurrence.
pub open spec fn no_repeats(v: Seq<Seq<char>>) -> bool {
    forall|i: int, j: int| 0 <= i < j < v.len() ==> v[i] != v[j]
}

proof fn lemma_push_to_set(s: Seq<Seq<char>>, x: Seq<char>)
    ensures
        s.push(x).to_set() =~= s.to_set().insert(x),
{
    assert forall|a: Seq<char>|
        s.push(x).to_set().contains(a) <==> s.to_set().insert(x).contains(a) by {
        if s.push(x).contains(a) {
            let i = choose|i: int| 0 <= i < s.push(x).len() && s.push(x)[i] == a;
            if i < s.len() {
                assert(s[i] == a);
            }
        }
        if s.contains(a) {
            let i = choose|i: int| 0 <= i < s.len() && s[i] == a;
            assert(s.push(x)[i] == a);
        }
        if a == x {
            assert(s.push(x)[s.len() as int] == a);
        }
    }
}

/// The results of the three searches together, each path once.
pub fn merge_results(content: Vec<String>, filenames: Vec<String>, dirnames: Vec<String>) -> (r: Vec<
    String,
>)
    ensures
        no_repeats(texts_view(r@)),
        texts_view(r@).to_set() == (texts_view(content@) + texts_view(filenames@) + texts_view(
            dirnames@,
        )).to_set(),
{
    let mut all: Vec<String> = content;
    let ghost a0 = texts_view(all@);
    let mut f = filenames;
    let mut d = dirnames;
    let ghost fv = texts_view(f@);
    let ghost dv = texts_view(d@);
    all.append(&mut f);
    all.append(&mut d);
    assert(texts_view(all@) =~= a0 + fv + dv);
    let ghost av = texts_view(all@);
    let mut out: Vec<String> = Vec::new();
    let mut i: usize = 0;
    while i < all.len()
        invariant
            i <= all@.len(),
            av == texts_view(all@),
            no_repeats(texts_view(out@)),
            texts_view(out@).to_set() == av.take(i as int).to_set(),
        decreases all.len() - i,
    {
        let mut seen = false;
        let mut k: usize = 0;
        while k < out.len()
            invariant
                k <= out@.len(),
                i < all@.len(),
                seen == exists|m: int| 0 <= m < k && #[trigger] out@[m]@ == all@[i as int]@,
            decreases out.len() - k,
        {
            if out[k] == all[i] {
                seen = true;
            }
            k = k + 1;
        }
        proof {
            assert(av.take(i + 1) =~= av.take(i as int).push(av[i as int]));
            assert(av[i as int] == all@[i as int]@);
        }
        if !seen {
            let p = all[i].clone();
            proof {
                let ov = texts_view(out@);
                assert(texts_view(out@.push(p)) =~= ov.push(p@));
                assert(!ov.contains(p@)) by {
                    if ov.contains(p@) {
                        let m = choose|m: int| 0 <= m < ov.len() && ov[m] == p@;
                        assert(out@[m]@ == all@[i as int]@);
                    }
                }
                lemma_push_to_set(ov, p@);
                lemma_push_to_set(av.take(i as int), av[i as int]);
            }
            out.push(p);
        } else {
            proof {
                let ov = texts_view(out@);
                let m = choose|m: int| 0 <= m < k && #[trigger] out@[m]@ == all@[i as int]@;
                assert(ov[m] == av[i as int]);
                assert(ov.to_set().contains(av[i as int]));
                lemma_push_to_set(av.take(i as int), av[i as int]);
            }
        }
        i = i + 1;
    }
    assert(av.take(all@.len() as int) =~= av);
    out
}


/// The priority roots as directories of the home directory `home`.
pub fn priority_paths(home: &str, roots: &Vec<String>) -> (r: Vec<String>)
    ensures
        r@.len() == roots@.len(),
        forall|k: int| 0 <= k < roots@.len() ==> (#[trigger] r@[k])@ == crate::paths::spec_path_join(home@, roots@[k]@),
{
    let mut out: Vec<String> = Vec::new();
    let mut k: usize = 0;
    while k < roots.len()
        invariant
            k <= roots@.len(),
            out@.len() == k,
            forall|j: int| 0 <= j < k ==> (#[trigger] out@[j])@ == crate::paths::spec_path_join(home@, roots@[j]@),
        decreases roots.len() - k,
    {
        out.push(crate::paths::path_join(home, roots[k].as_str()));
        k = k + 1;
    }
    out
}

/// The arguments of a ripgrep run that lists the files below `root` whose
/// content matches `query`, at most `max_depth` deep.
pub open spec fn content_args_spec(cfg: Config, max_depth: usize, query: Seq<char>, root: Seq<char>) -> Seq<Seq<char>> {
    seq!["--files-with-matches"@, "--smart-case"@, "--hidden"@] + exclude_args_spec(cfg) + seq![
        "--max-depth"@,
        crate::grep::decimal(max_depth as nat),
        query,
        root,
    ]
}

/// The arguments of a ripgrep run that lists every file below `root`.
pub open spec fn files_args_spec(cfg: Config, root: Seq<char>) -> Seq<Seq<char>> {
    seq!["--files"@, "--hidden"@, "--smart-case"@] + exclude_args_spec(cfg) + seq![root]
}

fn push_text(args: &mut Vec<String>, s: &str)
    ensures
        args_view(final(args)@) == args_view(old(args)@).push(s@),
{
    let t = String::from_str(s);
    assert(args_view(args@.push(t)) =~= args_view(args@).push(s@));
    args.push(t);
}

fn append_args(args: &mut Vec<String>, more: Vec<String>)
    ensures
        args_view(final(args)@) == args_view(old(args)@) + args_view(more@),
{
    let ghost a = args@;
    let mut m = more;
    let ghost mv = m@;
    args.append(&mut m);
    assert(args_view(args@) =~= args_view(a) + args_view(mv));
}

/// The arguments of the content search of `root` for `query`.
pub fn content_args(cfg: &Config, max_depth: usize, query: &str, root: &str) -> (r: Vec<String>)
    ensures
        args_view(r@) == content_args_spec(*cfg, max_depth, query@, root@),
{
    let mut args: Vec<String> = Vec::new();
    push_text(&mut args, "--files-with-matches");
    push_text(&mut args, "--smart-case");
    push_text(&mut args, "--hidden");
    append_args(&mut args, build_exclude_args(cfg));
    push_text(&mut args, "--max-depth");
    let d = crate::grep::decimal_chars(max_depth as u64);
    let ds = crate::text::string_from_chars(d.as_slice());
    push_text(&mut args, ds.as_str());
    push_text(&mut args, query);
    push_text(&mut args, root);
    assert(args_view(args@) =~= content_args_spec(*cfg, max_depth, query@, root@));
    args
}

/// The arguments of the file listing of `root`.
pub fn files_args(cfg: &Config, root: &str) -> (r: Vec<String>)
    ensures
        args_view(r@) == files_args_spec(*cfg, root@),
{
    let mut args: Vec<String> = Vec::new();
    push_text(&mut args, "--files");
    push_text(&mut args, "--hidden");
    push_text(&mut args, "--smart-case");
    append_args(&mut args, build_exclude_args(cfg));
    push_text(&mut args, root);
    assert(args_view(args@) =~= files_args_spec(*cfg, root@));
    args
}

} // verus!
