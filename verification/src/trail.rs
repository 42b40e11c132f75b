//! The trail lifecycle the emitted companion types share: a trail wraps the
//! live look-ahead link (absent when the current path was not selected),
//! carries its target type's name and an explicit not-walked/walked state,
//! and transitions by an optional result — never a fault.

use vstd::prelude::*;

verus! {

/// A node of the incoming query's selection structure: a selected field and
/// the fields selected beneath it.
pub struct SelectionNode {
    pub name: String,
    pub children: Vec<SelectionNode>,
}

/// The first node of `s` named `n`, if any — the child a look-ahead link
/// hands out for that wire name.
pub open spec fn first_named(s: Seq<SelectionNode>, n: Seq<char>) -> Option<SelectionNode>
    decreases s.len(),
{
    if s.len() == 0 {
        Option::None
    } else if s[0].name@ == n {
        Option::Some(s[0])
    } else {
        first_named(s.drop_first(), n)
    }
}

impl SelectionNode {
    /// The first child selected under `self` with this wire name, if any.
    pub fn select_child<'a>(&'a self, name: &String) -> (r: Option<&'a SelectionNode>)
        ensures
            match r {
                Option::Some(c) => first_named(self.children@, name@) == Option::Some(*c),
                Option::None => first_named(self.children@, name@) is None,
            },
    {
        let mut i: usize = 0;
        proof {
            assert(self.children@.skip(0) =~= self.children@);
        }
        while i < self.children.len()
            invariant
                0 <= i <= self.children@.len(),
                first_named(self.children@, name@) == first_named(
                    self.children@.skip(i as int),
                    name@,
                ),
            decreases self.children@.len() - i,
        {
            proof {
                assert(self.children@.skip(i as int).len() > 0);
                assert(self.children@.skip(i as int)[0] == self.children@[i as int]);
                assert(self.children@.skip(i as int).drop_first() =~= self.children@.skip(i + 1));
            }
            if self.children[i].name == *name {
                return Some(&self.children[i]);
            }
            i += 1;
        }
        proof {
            assert(self.children@.skip(self.children@.len() as int).len() == 0);
        }
        None
    }
}

/// The two-state trail lifecycle: `walk` is available only on a not-walked
/// trail and is what moves it to walked.
#[derive(Clone, Copy, PartialEq, Eq, Structural, Debug)]
pub enum TrailState {
    NotWalked,
    Walked,
}

/// A wrapper around the live look-ahead link with, per possible child field,
/// a presence check or a step deeper — the behavior every emitted companion
/// type's accessors share.
pub struct QueryTrail<'a> {
    pub look_ahead: Option<&'a SelectionNode>,
    pub node_type: String,
    pub state: TrailState,
}

impl<'a> QueryTrail<'a> {
    /// Check whether the trail is present in the query being executed. Only
    /// a not-walked trail can transition; an absent link yields `None`,
    /// never a fault.
    pub fn walk(self) -> (r: Option<QueryTrail<'a>>)
        requires
            self.state == TrailState::NotWalked,
        ensures
            match self.look_ahead {
                Option::Some(link) => match r {
                    Option::Some(t) => t.look_ahead == Option::Some(link) && t.node_type
                        == self.node_type && t.state == TrailState::Walked,
                    Option::None => false,
                },
                Option::None => r is None,
            },
    {
        match self.look_ahead {
            Some(inner) => Some(
                QueryTrail {
                    look_ahead: Some(inner),
                    node_type: self.node_type,
                    state: TrailState::Walked,
                },
            ),
            None => None,
        }
    }

    /// The presence check behind a scalar field's accessor: true iff the
    /// link is present and has a selected child with this wire name.
    pub fn scalar_field_selected(&self, wire_name: &String) -> (r: bool)
        ensures
            r == match self.look_ahead {
                Option::Some(link) => first_named(link.children@, wire_name@) is Some,
                Option::None => false,
            },
    {
        match self.look_ahead {
            Some(la) => la.select_child(wire_name).is_some(),
            None => false,
        }
    }

    /// The step behind a composite field's accessor: a fresh not-walked
    /// trail for `target_type`, whose link is the selected child with this
    /// wire name, if any. An absent link propagates as "nothing selected".
    pub fn walk_field(&self, wire_name: &String, target_type: String) -> (t: QueryTrail<'a>)
        ensures
            t.state == TrailState::NotWalked,
            t.node_type == target_type,
            match self.look_ahead {
                Option::Some(link) => match first_named(link.children@, wire_name@) {
                    Option::Some(c) => match t.look_ahead {
                        Option::Some(child) => *child == c,
                        Option::None => false,
                    },
                    Option::None => t.look_ahead is None,
                },
                Option::None => t.look_ahead is None,
            },
    {
        let child = match self.look_ahead {
            Some(la) => la.select_child(wire_name),
            None => None,
        };
        QueryTrail { look_ahead: child, node_type: target_type, state: TrailState::NotWalked }
    }
}

/// The root entry point: adapt an incoming live link into a walked trail of
/// a caller-chosen target type.
pub fn make_query_trail<'a>(link: &'a SelectionNode, node_type: String) -> (t: QueryTrail<'a>)
    ensures
        t.look_ahead == Option::Some(link),
        t.node_type == node_type,
        t.state == TrailState::Walked,
{
    QueryTrail { look_ahead: Some(link), node_type, state: TrailState::Walked }
}

} // verus!
