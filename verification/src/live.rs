//! Resolution against a live discovery catalog, used when the on-disk cache
//! answers nothing. A connected client hands over, group by group, the
//! resources each API group serves at its recommended version; the name is
//! matched case-insensitively against kind and plural name only (no short
//! names on this path, a deliberate asymmetry against the cache path), and
//! among groups with a match the lexicographically smallest group name wins.
use vstd::prelude::*;

use crate::discovery::{ApiResource, ApiResourceView, Scope};
use crate::strutil;
use crate::strutil::{eq_ignore_case, lex_lt};

verus! {

/// The resources one API group serves at its recommended version, in server
/// order.
#[derive(Debug)]
pub struct GroupResources {
    /// The API group's name, empty for the core group.
    pub name: String,
    /// Each resource with its scope.
    pub resources: Vec<(ApiResource, Scope)>,
}

pub struct GroupResourcesView {
    pub name: Seq<char>,
    pub resources: Seq<(ApiResourceView, Scope)>,
}

impl View for GroupResources {
    type V = GroupResourcesView;

    open spec fn view(&self) -> GroupResourcesView {
        GroupResourcesView {
            name: self.name@,
            resources: self.resources@.map_values(|p: (ApiResource, Scope)| (p.0@, p.1)),
        }
    }
}

/// Whether a live catalog entry answers to `name`: its kind or its plural
/// name matches, up to ASCII case.
pub open spec fn live_matches(r: ApiResourceView, name: Seq<char>) -> bool {
    eq_ignore_case(r.kind, name) || eq_ignore_case(r.plural, name)
}

/// The first entry of one group answering to `name`.
pub open spec fn group_find(rs: Seq<(ApiResourceView, Scope)>, name: Seq<char>) -> Option<
    (ApiResourceView, Scope),
>
    decreases rs.len(),
{
    if rs.len() == 0 {
        None
    } else if live_matches(rs[0].0, name) {
        Some(rs[0])
    } else {
        group_find(rs.drop_first(), name)
    }
}

/// The running best replaced only by a group with a match and a strictly
/// smaller name: on equal names the earlier group stands, as the
/// first-minimum rule of a minimum-by-key selection has it.
pub open spec fn live_better(
    best: Option<(Seq<char>, (ApiResourceView, Scope))>,
    g: GroupResourcesView,
    name: Seq<char>,
) -> Option<(Seq<char>, (ApiResourceView, Scope))> {
    match group_find(g.resources, name) {
        Some(e) => match best {
            None => Some((g.name, e)),
            Some(b) => if lex_lt(g.name, b.0) {
                Some((g.name, e))
            } else {
                Some(b)
            },
        },
        None => best,
    }
}

pub open spec fn live_fold(
    groups: Seq<GroupResourcesView>,
    name: Seq<char>,
    best: Option<(Seq<char>, (ApiResourceView, Scope))>,
) -> Option<(Seq<char>, (ApiResourceView, Scope))>
    decreases groups.len(),
{
    if groups.len() == 0 {
        best
    } else {
        live_fold(groups.drop_first(), name, live_better(best, groups[0], name))
    }
}

/// What live discovery resolves `name` to: the first matching entry of the
/// group with the lexicographically smallest name among groups holding a
/// match, the earliest such group on ties.
pub open spec fn resolve_live(groups: Seq<GroupResourcesView>, name: Seq<char>) -> Option<
    (ApiResourceView, Scope),
> {
    match live_fold(groups, name, None) {
        Some(b) => Some(b.1),
        None => None,
    }
}

/// The first entry of one group matching `name`, by kind or plural.
fn find_in_group(g: &GroupResources, name: &str) -> (r: Option<(ApiResource, Scope)>)
    ensures
        match r {
            Some(p) => group_find(g@.resources, name@) == Some((p.0@, p.1)),
            None => group_find(g@.resources, name@) is None,
        },
{
    let ghost rs = g@.resources;
    let mut k: usize = 0;
    proof {
        assert(rs.skip(0) =~= rs);
    }
    while k < g.resources.len()
        invariant
            rs == g@.resources,
            rs.len() == g.resources@.len(),
            forall|j: int|
                0 <= j < g.resources@.len() ==> rs[j] == (
                    #[trigger] g.resources@[j].0@,
                    g.resources@[j].1,
                ),
            k <= g.resources@.len(),
            group_find(rs, name@) == group_find(rs.skip(k as int), name@),
        decreases g.resources@.len() - k,
    {
        proof {
            assert(rs.skip(k as int)[0] == rs[k as int]);
            assert(rs.skip(k as int).drop_first() =~= rs.skip(k + 1 as int));
        }
        let entry = &g.resources[k];
        let hit = strutil::str_eq_ignore_ascii_case(entry.0.kind.as_str(), name)
            || strutil::str_eq_ignore_ascii_case(entry.0.plural.as_str(), name);
        if hit {
            return Some((entry.0.clone(), entry.1));
        }
        k += 1;
    }
    proof {
        assert(rs.skip(k as int) =~= Seq::<(ApiResourceView, Scope)>::empty());
    }
    None
}

/// Resolves `name` against a live discovery catalog: matching kind or plural
/// case-insensitively within each group's recommended-version resources, and
/// preferring the group whose name sorts lexicographically smallest, the
/// conventional group-preference order.
pub fn resolve_api_resource(groups: &Vec<GroupResources>, name: &str) -> (r: Option<
    (ApiResource, Scope),
>)
    ensures
        match r {
            Some(p) => resolve_live(groups@.map_values(|g: GroupResources| g@), name@) == Some(
                (p.0@, p.1),
            ),
            None => resolve_live(groups@.map_values(|g: GroupResources| g@), name@) is None,
        },
{
    let ghost gv = groups@.map_values(|g: GroupResources| g@);
    let mut best: Option<(String, (ApiResource, Scope))> = None;
    let ghost best_view = None::<(Seq<char>, (ApiResourceView, Scope))>;
    let mut i: usize = 0;
    proof {
        assert(gv.skip(0) =~= gv);
    }
    while i < groups.len()
        invariant
            gv == groups@.map_values(|g: GroupResources| g@),
            gv.len() == groups@.len(),
            forall|j: int| 0 <= j < groups@.len() ==> gv[j] == #[trigger] groups@[j]@,
            i <= groups@.len(),
            match best {
                Some(b) => best_view == Some((b.0@, (b.1.0@, b.1.1))),
                None => best_view is None,
            },
            live_fold(gv.skip(i as int), name@, best_view) == live_fold(gv, name@, None),
        decreases groups@.len() - i,
    {
        proof {
            assert(gv.skip(i as int)[0] == gv[i as int]);
            assert(gv.skip(i as int).drop_first() =~= gv.skip(i + 1 as int));
        }
        let g = &groups[i];
        match find_in_group(g, name) {
            Some(e) => {
                let replace = match &best {
                    None => true,
                    Some(b) => strutil::str_lex_lt(g.name.as_str(), b.0.as_str()),
                };
                if replace {
                    best = Some((g.name.clone(), e));
                    proof {
                        best_view = live_better(best_view, gv[i as int], name@);
                    }
                } else {
                    proof {
                        best_view = live_better(best_view, gv[i as int], name@);
                    }
                }
            },
            None => {
                proof {
                    best_view = live_better(best_view, gv[i as int], name@);
                }
            },
        }
        i += 1;
    }
    proof {
        assert(gv.skip(i as int) =~= Seq::<GroupResourcesView>::empty());
    }
    match best {
        Some(b) => Some(b.1),
        None => None,
    }
}

} // verus!
