//! Install roots, version directories, backups and the choice of processes
//! to close.
//!
//! The file system and the process table are read by the caller; this module
//! decides on what was read.

use vstd::prelude::*;
use vstd::string::StrSliceExecFns;
use vstd::string::StringExecFns;
use crate::infra::text::{
    ascii_lowercase, chars_of, ends_with_chars, lower_char, lower_chars, parse_u64_chars, spec_parse_u64, starts_with_chars,
    str_eq, to_lower_char,
};

verus! {

/// Default install root of Xiaomi PC Manager.
pub const DEFAULT_INSTALL_ROOT: &'static str = "C:\\Program Files\\MI\\XiaomiPCManager";
/// Default install root of Xiaomi Interconnect (PcContinuity), where only the
/// region patch applies for now.
pub const DEFAULT_PC_CONTINUITY_ROOT: &'static str = "C:\\Program Files\\MI\\PcContinuity";

/// Suffix of a backup file.
pub const BACKUP_SUFFIX: &'static str = ".orig.bak";

/// The backup of `file`: its path with `.orig.bak` appended.
pub fn backup_path(file: &str) -> (r: String)
    ensures
        r@ == file@ + BACKUP_SUFFIX@,
{
    let mut s = String::from_str(file);
    s.append(BACKUP_SUFFIX);
    s
}

/// The temporary file a patched file is written to before it replaces the original.
pub fn temporary_path(file: &str) -> (r: String)
    ensures
        r@ == file@ + ".patch.tmp"@,
{
    let mut s = String::from_str(file);
    s.append(".patch.tmp");
    s
}

// ---------------------------------------------------------------- versions

/// Parses the dot-separated pieces of `s` from index `i`, where the current
/// piece so far is `cur` and the numbers of the finished pieces are `acc`.
pub open spec fn parse_pieces(s: Seq<char>, i: int, cur: Seq<char>, acc: Seq<u64>) -> Option<Seq<u64>>
    decreases s.len() - i,
{
    if i < 0 || i >= s.len() {
        match spec_parse_u64(cur) {
            Some(v) => Some(acc.push(v)),
            None => None,
        }
    } else if s[i] == '.' {
        match spec_parse_u64(cur) {
            Some(v) => parse_pieces(s, i + 1, Seq::empty(), acc.push(v)),
            None => None,
        }
    } else {
        parse_pieces(s, i + 1, cur.push(s[i]), acc)
    }
}

/// A version directory name such as `5.8.0.14` as its numbers: every
/// dot-separated piece must parse as a `u64`; anything else gives `None`.
pub open spec fn spec_parse_version(s: Seq<char>) -> Option<Seq<u64>> {
    if s.len() == 0 { None } else { parse_pieces(s, 0, Seq::empty(), Seq::empty()) }
}

/// `a` comes after `b` in the order of `Vec<u64>`: lexicographic, a proper
/// prefix first.
pub open spec fn version_gt(a: Seq<u64>, b: Seq<u64>) -> bool
    decreases a.len(),
{
    if a.len() == 0 {
        false
    } else if b.len() == 0 {
        true
    } else if a[0] != b[0] {
        a[0] > b[0]
    } else {
        version_gt(a.drop_first(), b.drop_first())
    }
}

/// Parses a version directory name such as `5.8.0.14`.
pub fn parse_version(s: &str) -> (r: Option<Vec<u64>>)
    ensures
        match r {
            Some(v) => spec_parse_version(s@) == Some(v@),
            None => spec_parse_version(s@) is None,
        },
{
    let cs = chars_of(s);
    if cs.len() == 0 {
        return None;
    }
    let mut acc: Vec<u64> = Vec::new();
    let mut cur: Vec<char> = Vec::new();
    let mut i: usize = 0;
    while i < cs.len()
        invariant
            cs@ == s@,
            i <= cs@.len(),
            parse_pieces(s@, 0, Seq::empty(), Seq::empty()) == parse_pieces(s@, i as int, cur@, acc@),
        decreases cs@.len() - i,
    {
        if cs[i] == '.' {
            match parse_u64_chars(&cur) {
                Some(v) => {
                    acc.push(v);
                    cur = Vec::new();
                },
                None => return None,
            }
        } else {
            cur.push(cs[i]);
        }
        i = i + 1;
    }
    match parse_u64_chars(&cur) {
        Some(v) => {
            acc.push(v);
            Some(acc)
        },
        None => None,
    }
}

/// The index of the name with the highest version (the first of equals);
/// names that are no version are skipped.
pub open spec fn latest_from(names: Seq<Seq<char>>, i: int, best: Option<(Seq<u64>, int)>) -> Option<int>
    decreases names.len() - i,
{
    if i < 0 || i >= names.len() {
        match best {
            Some((_, k)) => Some(k),
            None => None,
        }
    } else {
        match spec_parse_version(names[i]) {
            None => latest_from(names, i + 1, best),
            Some(v) => {
                let take = match best {
                    Some((b, _)) => version_gt(v, b),
                    None => true,
                };
                latest_from(names, i + 1, if take { Some((v, i)) } else { best })
            },
        }
    }
}

/// The names as character sequences.
pub open spec fn names_view(names: Seq<String>) -> Seq<Seq<char>> {
    names.map_values(|n: String| n@)
}

/// `a` comes after `b` as versions.
fn version_after(a: &Vec<u64>, b: &Vec<u64>) -> (r: bool)
    ensures
        r == version_gt(a@, b@),
{
    let mut i: usize = 0;
    assert(a@.skip(0) =~= a@);
    assert(b@.skip(0) =~= b@);
    while i < a.len() && i < b.len() && a[i] == b[i]
        invariant
            i <= a@.len(),
            i <= b@.len(),
            version_gt(a@, b@) == version_gt(a@.skip(i as int), b@.skip(i as int)),
        decreases a@.len() - i,
    {
        assert(a@.skip(i as int).drop_first() =~= a@.skip(i + 1));
        assert(b@.skip(i as int).drop_first() =~= b@.skip(i + 1));
        i = i + 1;
    }
    if i >= a.len() {
        false
    } else if i >= b.len() {
        true
    } else {
        a[i] > b[i]
    }
}

/// Among the names of the directories under an install root, the one with the
/// highest version (such as `5.8.0.14`), as its index.
pub fn latest_version_index(names: &Vec<String>) -> (r: Option<usize>)
    ensures
        match r {
            Some(k) => latest_from(names_view(names@), 0, None) == Some(k as int),
            None => latest_from(names_view(names@), 0, None) is None,
        },
{
    let ghost nv = names_view(names@);
    let mut best: Option<(Vec<u64>, usize)> = None;
    let mut i: usize = 0;
    while i < names.len()
        invariant
            nv == names_view(names@),
            i <= names@.len(),
            latest_from(nv, 0, None) == latest_from(nv, i as int, match best {
                Some((b, k)) => Some((b@, k as int)),
                None => None,
            }),
        decreases names@.len() - i,
    {
        assert(nv[i as int] == names@[i as int]@);
        match parse_version(names[i].as_str()) {
            None => {},
            Some(v) => {
                let take = match &best {
                    Some((b, _)) => version_after(&v, b),
                    None => true,
                };
                if take {
                    best = Some((v, i));
                }
            },
        }
        i = i + 1;
    }
    match best {
        Some((_, k)) => Some(k),
        None => None,
    }
}

/// The chosen index is one of the names.
pub proof fn lemma_latest_in_range(names: Seq<Seq<char>>, i: int, best: Option<(Seq<u64>, int)>)
    requires
        0 <= i,
        best matches Some((_, k)) ==> 0 <= k < names.len(),
    ensures
        latest_from(names, i, best) matches Some(k) ==> 0 <= k < names.len(),
    decreases names.len() - i,
{
    if i < names.len() {
        match spec_parse_version(names[i]) {
            None => lemma_latest_in_range(names, i + 1, best),
            Some(v) => {
                let take = match best {
                    Some((b, _)) => version_gt(v, b),
                    None => true,
                };
                lemma_latest_in_range(names, i + 1, if take { Some((v, i)) } else { best });
            },
        }
    }
}

/// Version order is transitive.
pub proof fn lemma_version_gt_transitive(a: Seq<u64>, b: Seq<u64>, c: Seq<u64>)
    requires
        version_gt(a, b),
        version_gt(b, c),
    ensures
        version_gt(a, c),
    decreases a.len(),
{
    if c.len() > 0 && a[0] == b[0] && b[0] == c[0] {
        lemma_version_gt_transitive(a.drop_first(), b.drop_first(), c.drop_first());
    }
}

/// What the scan has seen before `i`: `best` is the greatest version so far
/// (the first of equal ones), or nothing parsed.
pub open spec fn latest_so_far(names: Seq<Seq<char>>, i: int, best: Option<(Seq<u64>, int)>) -> bool {
    match best {
        Some((b, k)) => 0 <= k < i && spec_parse_version(names[k]) == Some(b) && (forall|j: int|
            0 <= j < i ==> (#[trigger] spec_parse_version(names[j]) matches Some(v) ==> !version_gt(v, b))),
        None => forall|j: int| 0 <= j < i ==> #[trigger] spec_parse_version(names[j]) is None,
    }
}

proof fn lemma_latest_from_greatest(names: Seq<Seq<char>>, i: int, best: Option<(Seq<u64>, int)>)
    requires
        0 <= i <= names.len(),
        latest_so_far(names, i, best),
    ensures
        match latest_from(names, i, best) {
            Some(k) => latest_so_far(names, names.len() as int, Some((spec_parse_version(names[k])->Some_0, k))),
            None => latest_so_far(names, names.len() as int, None),
        },
    decreases names.len() - i,
{
    if i < names.len() {
        match spec_parse_version(names[i]) {
            None => {
                assert(latest_so_far(names, i + 1, best));
                lemma_latest_from_greatest(names, i + 1, best);
            },
            Some(v) => {
                let take = match best {
                    Some((b, _)) => version_gt(v, b),
                    None => true,
                };
                let next = if take { Some((v, i)) } else { best };
                if take {
                    assert forall|j: int| 0 <= j < i + 1 implies (#[trigger] spec_parse_version(names[j]) matches Some(w)
                        ==> !version_gt(w, v)) by {
                        if j < i && best is Some {
                            if let Some(w) = spec_parse_version(names[j]) {
                                let b = best->Some_0.0;
                                if version_gt(w, v) {
                                    lemma_version_gt_transitive(w, v, b);
                                }
                            }
                        }
                        if j == i {
                            lemma_version_gt_irreflexive(v);
                        }
                    }
                }
                assert(latest_so_far(names, i + 1, next));
                lemma_latest_from_greatest(names, i + 1, next);
            },
        }
    }
}

/// No version is greater than itself.
pub proof fn lemma_version_gt_irreflexive(a: Seq<u64>)
    ensures
        !version_gt(a, a),
    decreases a.len(),
{
    if a.len() > 0 {
        lemma_version_gt_irreflexive(a.drop_first());
    }
}

/// The newest version directory: the one chosen parses as a version that
/// no other directory's version exceeds, and none is chosen only when no
/// name parses as a version.
pub proof fn lemma_latest_is_greatest(names: Seq<Seq<char>>)
    ensures
        match latest_from(names, 0, None) {
            Some(k) => 0 <= k < names.len() && spec_parse_version(names[k]) is Some && forall|j: int|
                0 <= j < names.len() ==> (#[trigger] spec_parse_version(names[j]) matches Some(v) ==> !version_gt(
                    v,
                    spec_parse_version(names[k])->Some_0,
                )),
            None => forall|j: int| 0 <= j < names.len() ==> #[trigger] spec_parse_version(names[j]) is None,
        },
{
    lemma_latest_from_greatest(names, 0, None);
}

// ---------------------------------------------------------------- processes

/// A running process as read from the process table.
pub struct ProcessInfo {
    pub pid: u32,
    /// The process name, such as `MiPCAudio.exe`.
    pub name: String,
    /// The executable's path, when known.
    pub exe: Option<String>,
}

/// A process name without a trailing `.exe` (case-sensitive, as
/// `str::strip_suffix` removes it).
pub open spec fn process_stem(name: Seq<char>) -> Seq<char> {
    if ends_with_chars(name, ".exe"@) { name.subrange(0, name.len() - 4) } else { name }
}

/// `a` and `b` are equal but for ASCII case, as `eq_ignore_ascii_case` decides.
pub open spec fn names_match(a: Seq<char>, b: Seq<char>) -> bool {
    lower_chars(a) == lower_chars(b)
}

/// `stem` is one of `names`, ignoring ASCII case.
pub open spec fn is_known(names: Seq<&str>, stem: Seq<char>) -> bool {
    exists|i: int| 0 <= i < names.len() && names_match(#[trigger] names[i]@, stem)
}

/// A process of interest: not this process, with a known name.
pub open spec fn is_running_target(p: ProcessInfo, names: Seq<&str>, current_pid: Option<u32>) -> bool {
    current_pid != Some(p.pid) && is_known(names, process_stem(p.name@))
}

/// How a process of interest is reported: its name with `.exe`.
pub open spec fn running_label(p: ProcessInfo) -> Seq<char> {
    process_stem(p.name@) + ".exe"@
}

/// `a` sorts before `b` (character by character; a proper prefix first), the
/// order of `String`.
pub open spec fn chars_lt(a: Seq<char>, b: Seq<char>) -> bool
    decreases a.len(),
{
    if a.len() == 0 {
        b.len() > 0
    } else if b.len() == 0 {
        false
    } else if a[0] != b[0] {
        a[0] < b[0]
    } else {
        chars_lt(a.drop_first(), b.drop_first())
    }
}

/// Strictly increasing, so without duplicates.
pub open spec fn strictly_sorted(v: Seq<Seq<char>>) -> bool {
    forall|i: int, j: int| 0 <= i < j < v.len() ==> chars_lt(#[trigger] v[i], #[trigger] v[j])
}

/// The strings as character sequences.
pub open spec fn strings_view(v: Seq<String>) -> Seq<Seq<char>> {
    v.map_values(|s: String| s@)
}

pub proof fn lemma_chars_lt_irreflexive(a: Seq<char>)
    ensures
        !chars_lt(a, a),
    decreases a.len(),
{
    if a.len() > 0 {
        lemma_chars_lt_irreflexive(a.drop_first());
    }
}

pub proof fn lemma_chars_lt_total(a: Seq<char>, b: Seq<char>)
    ensures
        a == b || chars_lt(a, b) || chars_lt(b, a),
    decreases a.len(),
{
    if a.len() > 0 && b.len() > 0 && a[0] == b[0] {
        lemma_chars_lt_total(a.drop_first(), b.drop_first());
        if a.drop_first() == b.drop_first() {
            assert(a =~= seq![a[0]] + a.drop_first());
            assert(b =~= seq![b[0]] + b.drop_first());
        }
    } else if a.len() == 0 && b.len() == 0 {
        assert(a =~= b);
    }
}

pub proof fn lemma_chars_lt_transitive(a: Seq<char>, b: Seq<char>, c: Seq<char>)
    requires
        chars_lt(a, b),
        chars_lt(b, c),
    ensures
        chars_lt(a, c),
    decreases a.len(),
{
    if a.len() > 0 && b.len() > 0 && c.len() > 0 && a[0] == b[0] && b[0] == c[0] {
        lemma_chars_lt_transitive(a.drop_first(), b.drop_first(), c.drop_first());
    }
}

pub proof fn lemma_chars_lt_asymmetric(a: Seq<char>, b: Seq<char>)
    requires
        chars_lt(a, b),
    ensures
        !chars_lt(b, a),
{
    if chars_lt(b, a) {
        lemma_chars_lt_transitive(a, b, a);
        lemma_chars_lt_irreflexive(a);
    }
}

/// `a` sorts before `b`, on character vectors.
pub fn chars_before(a: &Vec<char>, b: &Vec<char>) -> (r: bool)
    ensures
        r == chars_lt(a@, b@),
{
    let mut i: usize = 0;
    proof {
        assert(a@.skip(0) =~= a@);
        assert(b@.skip(0) =~= b@);
    }
    while i < a.len() && i < b.len() && a[i] == b[i]
        invariant
            i <= a@.len(),
            i <= b@.len(),
            chars_lt(a@, b@) == chars_lt(a@.skip(i as int), b@.skip(i as int)),
        decreases a@.len() - i,
    {
        assert(a@.skip(i as int).drop_first() =~= a@.skip(i + 1));
        assert(b@.skip(i as int).drop_first() =~= b@.skip(i + 1));
        i = i + 1;
    }
    if i >= a.len() {
        i < b.len()
    } else if i >= b.len() {
        false
    } else {
        a[i] < b[i]
    }
}

/// `a` sorts before `b`.
fn str_lt(a: &str, b: &str) -> (r: bool)
    ensures
        r == chars_lt(a@, b@),
{
    let ca = chars_of(a);
    let cb = chars_of(b);
    let mut i: usize = 0;
    proof {
        assert(a@.skip(0) =~= a@);
        assert(b@.skip(0) =~= b@);
    }
    while i < ca.len() && i < cb.len() && ca[i] == cb[i]
        invariant
            ca@ == a@,
            cb@ == b@,
            i <= ca@.len(),
            i <= cb@.len(),
            chars_lt(a@, b@) == chars_lt(a@.skip(i as int), b@.skip(i as int)),
        decreases ca@.len() - i,
    {
        assert(a@.skip(i as int).drop_first() =~= a@.skip(i + 1));
        assert(b@.skip(i as int).drop_first() =~= b@.skip(i + 1));
        i = i + 1;
    }
    if i >= ca.len() {
        i < cb.len()
    } else if i >= cb.len() {
        false
    } else {
        ca[i] < cb[i]
    }
}

/// `a` and `b` are equal.
fn chars_equal(a: &Vec<char>, b: &Vec<char>) -> (r: bool)
    ensures
        r == (a@ == b@),
{
    if a.len() != b.len() {
        return false;
    }
    let mut i: usize = 0;
    while i < a.len()
        invariant
            a@.len() == b@.len(),
            i <= a@.len(),
            forall|j: int| 0 <= j < i ==> a@[j] == b@[j],
        decreases a@.len() - i,
    {
        if a[i] != b[i] {
            return false;
        }
        i = i + 1;
    }
    assert(a@ =~= b@);
    true
}

/// The name of a process without a trailing `.exe`.
fn stem_of(name: &str) -> (r: &str)
    ensures
        r@ == process_stem(name@),
{
    let cs = chars_of(name);
    let exe = chars_of(".exe");
    proof {
        reveal_strlit(".exe");
    }
    if crate::infra::text::ends_with(&cs, &exe) {
        name.substring_char(0, cs.len() - 4)
    } else {
        name
    }
}

/// `stem` is one of `names`, ignoring ASCII case.
fn known_name(names: &[&str], stem: &str) -> (r: bool)
    ensures
        r == is_known(names@, stem@),
{
    let ls = ascii_lowercase(stem);
    let mut i: usize = 0;
    while i < names.len()
        invariant
            ls@ == lower_chars(stem@),
            i <= names@.len(),
            forall|j: int| 0 <= j < i ==> !names_match(#[trigger] names@[j]@, stem@),
        decreases names@.len() - i,
    {
        let ln = ascii_lowercase(names[i]);
        if chars_equal(&ln, &ls) {
            assert(names_match(names@[i as int]@, stem@));
            return true;
        }
        i = i + 1;
    }
    false
}

/// Inserts `x` into the strictly sorted `v` unless it is there.
fn insert_sorted(v: &mut Vec<String>, x: &str)
    requires
        strictly_sorted(strings_view(old(v)@)),
    ensures
        strictly_sorted(strings_view(final(v)@)),
        forall|s: Seq<char>| strings_view(final(v)@).contains(s) <==> (strings_view(old(v)@).contains(s) || s == x@),
{
    let ghost old_view = strings_view(v@);
    assert(old_view == strings_view(old(v)@));
    let mut p: usize = 0;
    while p < v.len() && str_lt(v[p].as_str(), x)
        invariant
            old_view == strings_view(v@),
            old_view == strings_view(old(v)@),
            p <= v@.len(),
            forall|k: int| 0 <= k < p ==> chars_lt(#[trigger] old_view[k], x@),
        decreases v@.len() - p,
    {
        assert(old_view[p as int] == v@[p as int]@);
        p = p + 1;
    }
    if p < v.len() && str_eq(v[p].as_str(), x) {
        assert(old_view[p as int] == x@);
        assert forall|s: Seq<char>| strings_view(v@).contains(s) <==> (old_view.contains(s) || s == x@) by {
            if s == x@ {
                assert(old_view[p as int] == s);
            }
        }
        return;
    }
    proof {
        if p < v@.len() {
            assert(old_view[p as int] == v@[p as int]@);
            lemma_chars_lt_total(old_view[p as int], x@);
        }
        lemma_insert_sorted(old_view, p as int, x@);
    }
    let ghost xv = x@;
    v.insert(p, String::from_str(x));
    assert(strings_view(v@) =~= old_view.insert(p as int, xv));
    assert forall|s: Seq<char>| strings_view(v@).contains(s) <==> (old_view.contains(s) || s == xv) by {
        assert(old_view.insert(p as int, xv).contains(s) <==> (old_view.contains(s) || s == xv));
    }
    assert(xv == x@);
    assert(forall|s: Seq<char>| strings_view(v@).contains(s) <==> (strings_view(old(v)@).contains(s) || s == x@));
}

/// Inserting `x` where everything before is smaller and everything after is
/// larger keeps a sequence strictly sorted and adds just `x`.
proof fn lemma_insert_sorted(v: Seq<Seq<char>>, p: int, x: Seq<char>)
    requires
        strictly_sorted(v),
        0 <= p <= v.len(),
        forall|k: int| 0 <= k < p ==> chars_lt(#[trigger] v[k], x),
        p < v.len() ==> chars_lt(x, v[p]),
    ensures
        strictly_sorted(v.insert(p, x)),
        forall|s: Seq<char>| v.insert(p, x).contains(s) <==> (v.contains(s) || s == x),
{
    let nv = v.insert(p, x);
    v.insert_ensures(p, x);
    assert forall|i: int, j: int| 0 <= i < j < nv.len() implies chars_lt(#[trigger] nv[i], #[trigger] nv[j]) by {
        if j < p {
        } else if j == p {
        } else if i < p {
            if p + 1 < j {
                lemma_chars_lt_transitive(x, v[p], v[j - 1]);
            }
            lemma_chars_lt_transitive(nv[i], x, nv[j]);
        } else if i == p {
            if p + 1 < j {
                lemma_chars_lt_transitive(x, v[p], v[j - 1]);
            }
        } else {
            assert(nv[i] == v[i - 1] && nv[j] == v[j - 1]);
        }
    }
    assert forall|s: Seq<char>| nv.contains(s) <==> (v.contains(s) || s == x) by {
        if nv.contains(s) {
            let k = choose|k: int| 0 <= k < nv.len() && nv[k] == s;
            if k < p {
                assert(v[k] == s);
            } else if k > p {
                assert(v[k - 1] == s);
            }
        }
        if v.contains(s) {
            let k = choose|k: int| 0 <= k < v.len() && v[k] == s;
            if k < p {
                assert(nv[k] == s);
            } else {
                assert(nv[k + 1] == s);
            }
        }
        if s == x {
            assert(nv[p] == s);
        }
    }
}

/// The processes of interest among `procs` (not this process, named in
/// `names` ignoring ASCII case and a trailing `.exe`), each reported once as
/// its name with `.exe`, in sorted order.
pub fn running_by_names(procs: &Vec<ProcessInfo>, names: &[&str], current_pid: Option<u32>) -> (r: Vec<String>)
    ensures
        strictly_sorted(strings_view(r@)),
        forall|s: Seq<char>| strings_view(r@).contains(s) <==> exists|j: int|
            0 <= j < procs@.len() && is_running_target(#[trigger] procs@[j], names@, current_pid) && s == running_label(procs@[j]),
{
    let mut out: Vec<String> = Vec::new();
    let mut i: usize = 0;
    while i < procs.len()
        invariant
            i <= procs@.len(),
            strictly_sorted(strings_view(out@)),
            forall|s: Seq<char>| strings_view(out@).contains(s) <==> exists|j: int|
                0 <= j < i && is_running_target(#[trigger] procs@[j], names@, current_pid) && s == running_label(procs@[j]),
        decreases procs@.len() - i,
    {
        let p = &procs[i];
        let stem = stem_of(p.name.as_str());
        let other = match current_pid {
            Some(c) => c != p.pid,
            None => true,
        };
        let ghost before = strings_view(out@);
        if other && known_name(names, stem) {
            let mut label = String::from_str(stem);
            label.append(".exe");
            insert_sorted(&mut out, label.as_str());
            assert forall|s: Seq<char>| strings_view(out@).contains(s) <==> exists|j: int|
                0 <= j < i + 1 && is_running_target(#[trigger] procs@[j], names@, current_pid) && s == running_label(procs@[j]) by {
                if s == running_label(procs@[i as int]) {
                    assert(is_running_target(procs@[i as int], names@, current_pid));
                }
            }
        } else {
            assert(!is_running_target(procs@[i as int], names@, current_pid));
        }
        i = i + 1;
    }
    out
}

// ---------------------------------------------------------------- closing processes

/// `p` with every `/` turned into `\`.
pub open spec fn backslashed(p: Seq<char>) -> Seq<char> {
    p.map_values(|c: char| if c == '/' { '\\' } else { c })
}

/// `p` without its trailing backslashes.
pub open spec fn trim_backslashes(p: Seq<char>) -> Seq<char>
    decreases p.len(),
{
    if p.len() > 0 && p.last() == '\\' { trim_backslashes(p.drop_last()) } else { p }
}

/// A process path as it is compared: backslashes, no trailing one, ASCII lower case.
pub open spec fn normalized_path(p: Seq<char>) -> Seq<char> {
    lower_chars(trim_backslashes(backslashed(p)))
}

/// `path` is `root` or lies inside it, comparing normalized paths.
pub open spec fn spec_path_is_under(path: Seq<char>, root: Seq<char>) -> bool {
    let p = normalized_path(path);
    let r = normalized_path(root);
    p == r || starts_with_chars(p, r.push('\\'))
}

/// The normalized form of a path.
fn normalize_process_path(p: &str) -> (r: Vec<char>)
    ensures
        r@ == normalized_path(p@),
{
    let cs = chars_of(p);
    let mut end: usize = cs.len();
    proof {
        assert(backslashed(p@).take(end as int) =~= backslashed(p@));
    }
    while end > 0 && (cs[end - 1] == '/' || cs[end - 1] == '\\')
        invariant
            cs@ == p@,
            end <= cs@.len(),
            trim_backslashes(backslashed(p@)) == trim_backslashes(backslashed(p@).take(end as int)),
        decreases end,
    {
        let ghost t = backslashed(p@).take(end as int);
        assert(t.drop_last() =~= backslashed(p@).take(end - 1));
        end = end - 1;
    }
    let mut r: Vec<char> = Vec::new();
    let mut i: usize = 0;
    let ghost kept = backslashed(p@).take(end as int);
    proof {
        if end > 0 {
            assert(kept.last() == backslashed(p@)[end - 1]);
        }
        assert(trim_backslashes(kept) == kept);
    }
    while i < end
        invariant
            cs@ == p@,
            i <= end <= cs@.len(),
            kept == backslashed(p@).take(end as int),
            r@ =~= lower_chars(kept.take(i as int)),
        decreases end - i,
    {
        let c = if cs[i] == '/' { '\\' } else { cs[i] };
        assert(c == kept[i as int]);
        r.push(to_lower_char(c));
        proof {
            assert(kept.take(i + 1) =~= kept.take(i as int).push(c));
        }
        i = i + 1;
    }
    assert(kept.take(end as int) =~= kept);
    r
}

/// `path` is `root` or lies inside it: both are compared with `\\` as the
/// separator, without trailing separators and ignoring ASCII case.
pub fn path_is_under(path: &str, root: &str) -> (r: bool)
    ensures
        r == spec_path_is_under(path@, root@),
{
    let p = normalize_process_path(path);
    let mut rr = normalize_process_path(root);
    if chars_equal(&p, &rr) {
        return true;
    }
    rr.push('\\');
    crate::infra::text::starts_with(&p, &rr)
}

/// A process is closed: not this process, and either its executable lies in
/// one of `install_roots` or, where name matching is allowed, its name is one
/// of `names`.
pub open spec fn is_kill_target(
    p: ProcessInfo,
    names: Seq<&str>,
    install_roots: Seq<String>,
    allow_global_name_match: bool,
    current_pid: Option<u32>,
) -> bool {
    &&& current_pid != Some(p.pid)
    &&& {
        ||| (p.exe matches Some(exe) && exists|k: int| 0 <= k < install_roots.len() && spec_path_is_under(exe@, #[trigger] install_roots[k]@))
        ||| (allow_global_name_match && is_known(names, process_stem(p.name@)))
    }
}

/// The pids of the processes to close among `procs`, in their order.
pub open spec fn kill_pids(
    procs: Seq<ProcessInfo>,
    names: Seq<&str>,
    install_roots: Seq<String>,
    allow_global_name_match: bool,
    current_pid: Option<u32>,
) -> Seq<u32>
    decreases procs.len(),
{
    if procs.len() == 0 {
        Seq::empty()
    } else {
        let rest = kill_pids(procs.drop_last(), names, install_roots, allow_global_name_match, current_pid);
        if is_kill_target(procs.last(), names, install_roots, allow_global_name_match, current_pid) {
            rest.push(procs.last().pid)
        } else {
            rest
        }
    }
}

/// Whether `exe` lies in one of `roots`.
fn under_any(exe: &str, roots: &Vec<String>) -> (r: bool)
    ensures
        r == exists|k: int| 0 <= k < roots@.len() && spec_path_is_under(exe@, #[trigger] roots@[k]@),
{
    let mut k: usize = 0;
    while k < roots.len()
        invariant
            k <= roots@.len(),
            forall|j: int| 0 <= j < k ==> !spec_path_is_under(exe@, #[trigger] roots@[j]@),
        decreases roots@.len() - k,
    {
        if path_is_under(exe, roots[k].as_str()) {
            return true;
        }
        k = k + 1;
    }
    false
}

/// The processes to close, by pid: not this process, and either running
/// from one of `install_roots` or, when `allow_global_name_match`, named in
/// `names` (ignoring ASCII case and a trailing `.exe`).
pub fn processes_to_kill(
    procs: &Vec<ProcessInfo>,
    names: &[&str],
    install_roots: &Vec<String>,
    allow_global_name_match: bool,
    current_pid: Option<u32>,
) -> (r: Vec<u32>)
    ensures
        r@ == kill_pids(procs@, names@, install_roots@, allow_global_name_match, current_pid),
{
    let mut out: Vec<u32> = Vec::new();
    let mut i: usize = 0;
    while i < procs.len()
        invariant
            i <= procs@.len(),
            out@ == kill_pids(procs@.take(i as int), names@, install_roots@, allow_global_name_match, current_pid),
        decreases procs@.len() - i,
    {
        let p = &procs[i];
        let other = match current_pid {
            Some(c) => c != p.pid,
            None => true,
        };
        let in_root = match &p.exe {
            Some(exe) => under_any(exe.as_str(), install_roots),
            None => false,
        };
        let known = allow_global_name_match && known_name(names, stem_of(p.name.as_str()));
        proof {
            assert(procs@.take(i + 1).drop_last() =~= procs@.take(i as int));
            assert(procs@.take(i + 1).last() == procs@[i as int]);
        }
        if other && (in_root || known) {
            out.push(p.pid);
        }
        i = i + 1;
    }
    assert(procs@.take(procs@.len() as int) =~= procs@);
    out
}

} // verus!
