//! The workspace name a window manager knows a view by: `<project>#<view>`.
use vstd::prelude::*;
use vstd::view::View as _;
use crate::model::View;

verus! {

/// Separates the project name from the view name in a workspace name.
pub const SEPARATOR: char = '#';

/// `s` holds no separator, so it can stand on either side of one.
pub open spec fn no_separator(s: Seq<char>) -> bool {
    forall|i: int| 0 <= i < s.len() ==> s[i] != SEPARATOR
}

/// The workspace name of view `view` in project `project`.
pub open spec fn display_name_of(project: Seq<char>, view: Seq<char>) -> Seq<char> {
    project + seq![SEPARATOR] + view
}

/// `s` splits into the separator-free names `project` and `view`.
pub open spec fn splits_into(s: Seq<char>, project: Seq<char>, view: Seq<char>) -> bool {
    &&& no_separator(project)
    &&& no_separator(view)
    &&& s == display_name_of(project, view)
}

/// The project and view names that `s` encodes; `None` when `s` does not hold
/// exactly one separator.
pub open spec fn decode(s: Seq<char>) -> Option<(Seq<char>, Seq<char>)> {
    if exists|pv: (Seq<char>, Seq<char>)| splits_into(s, pv.0, pv.1) {
        Some(choose|pv: (Seq<char>, Seq<char>)| splits_into(s, pv.0, pv.1))
    } else {
        None
    }
}

/// In a name built from separator-free parts, the separator stands only
/// between them.
proof fn lemma_separator_only_between(p: Seq<char>, v: Seq<char>, k: int)
    requires
        no_separator(p),
        no_separator(v),
        0 <= k < display_name_of(p, v).len(),
        display_name_of(p, v)[k] == SEPARATOR,
    ensures
        k == p.len(),
{
    let s = display_name_of(p, v);
    if k < p.len() {
        assert(s[k] == p[k]);
    } else if k > p.len() {
        assert(s[k] == v[k - p.len() - 1]);
    }
}

/// A workspace name has at most one split into separator-free names.
proof fn lemma_split_unique(s: Seq<char>, pa: Seq<char>, va: Seq<char>, pb: Seq<char>, vb: Seq<char>)
    requires
        splits_into(s, pa, va),
        splits_into(s, pb, vb),
    ensures
        pa == pb,
        va == vb,
{
    assert(s[pa.len() as int] == SEPARATOR);
    assert(s[pb.len() as int] == SEPARATOR);
    lemma_separator_only_between(pa, va, pb.len() as int);
    assert(pa =~= s.subrange(0, pa.len() as int));
    assert(pb =~= s.subrange(0, pb.len() as int));
    assert(va =~= s.subrange(pa.len() as int + 1, s.len() as int));
    assert(vb =~= s.subrange(pb.len() as int + 1, s.len() as int));
}

/// Decoding the workspace name of separator-free names gives those names back.
pub proof fn lemma_decode_display_name(project: Seq<char>, view: Seq<char>)
    requires
        no_separator(project),
        no_separator(view),
    ensures
        decode(display_name_of(project, view)) == Some((project, view)),
{
    let s = display_name_of(project, view);
    assert(splits_into(s, (project, view).0, (project, view).1));
    let pv = choose|pv: (Seq<char>, Seq<char>)| splits_into(s, pv.0, pv.1);
    lemma_split_unique(s, pv.0, pv.1, project, view);
}

/// Whether `s` holds the separator.
pub fn has_separator(s: &str) -> (r: bool)
    ensures
        r == !no_separator(s@),
{
    let n = s.unicode_len();
    let mut i: usize = 0;
    while i < n
        invariant
            n == s@.len(),
            i <= n,
            forall|j: int| 0 <= j < i ==> s@[j] != SEPARATOR,
        decreases n - i,
    {
        if s.get_char(i) == SEPARATOR {
            return true;
        }
        i += 1;
    }
    false
}

/// The workspace name of view `view` in project `project`.
pub fn encode_display_name(project: &str, view: &str) -> (r: String)
    ensures
        r@ == display_name_of(project@, view@),
{
    let mut r = project.to_owned();
    proof {
        reveal_strlit("#");
    }
    r.append("#");
    r.append(view);
    assert(r@ =~= display_name_of(project@, view@));
    r
}

/// Splits a workspace name at its one separator into project and view names;
/// `None` when it holds no separator or more than one.
pub fn decode_display_name(s: &str) -> (r: Option<(String, String)>)
    ensures
        match r {
            Some((p, v)) => decode(s@) == Some((p@, v@)),
            None => decode(s@) is None,
        },
{
    let n = s.unicode_len();
    let mut first: Option<usize> = None;
    let mut i: usize = 0;
    while i < n
        invariant
            n == s@.len(),
            i <= n,
            match first {
                None => forall|j: int| 0 <= j < i ==> s@[j] != SEPARATOR,
                Some(f) => f < i && s@[f as int] == SEPARATOR && forall|j: int|
                    0 <= j < i && j != f ==> s@[j] != SEPARATOR,
            },
        decreases n - i,
    {
        if s.get_char(i) == SEPARATOR {
            if let Some(f) = first {
                proof {
                    if exists|pv: (Seq<char>, Seq<char>)| splits_into(s@, pv.0, pv.1) {
                        let pv = choose|pv: (Seq<char>, Seq<char>)| splits_into(s@, pv.0, pv.1);
                        lemma_separator_only_between(pv.0, pv.1, f as int);
                        lemma_separator_only_between(pv.0, pv.1, i as int);
                    }
                }
                return None;
            }
            first = Some(i);
        }
        i += 1;
    }
    match first {
        None => {
            proof {
                if exists|pv: (Seq<char>, Seq<char>)| splits_into(s@, pv.0, pv.1) {
                    let pv = choose|pv: (Seq<char>, Seq<char>)| splits_into(s@, pv.0, pv.1);
                    assert(s@[pv.0.len() as int] == SEPARATOR);
                }
            }
            None
        },
        Some(f) => {
            let project = s.substring_char(0, f).to_owned();
            let view = s.substring_char(f + 1, n).to_owned();
            proof {
                assert(s@ =~= display_name_of(project@, view@));
                lemma_decode_display_name(project@, view@);
            }
            Some((project, view))
        },
    }
}

/// The workspace name of `view` in the project named `project_name`; `None`
/// where either name holds the separator and so could not be decoded again.
pub fn display_name_for(project_name: &str, view: &View) -> (r: Option<String>)
    ensures
        match r {
            Some(s) => no_separator(project_name@) && no_separator(view.name@) && s@
                == display_name_of(project_name@, view.name@),
            None => !(no_separator(project_name@) && no_separator(view.name@)),
        },
{
    if has_separator(project_name) || has_separator(view.name.as_str()) {
        return None;
    }
    Some(encode_display_name(project_name, view.name.as_str()))
}

} // verus!
