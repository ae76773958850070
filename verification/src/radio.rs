//! The radio link between two robots: when their graphs are connected by
//! inter-robot factors, and when these are put out of use.
use vstd::prelude::*;

verus! {

/// The state of the connection between the graphs of two robots.
#[derive(Debug, Clone, Copy, PartialEq, Eq, Hash, Structural)]
pub enum Link {
    /// The graphs hold no inter-robot factors for each other.
    Missing,
    /// The graphs hold inter-robot factors for each other, and these are in
    /// use.
    Active,
    /// The graphs hold inter-robot factors for each other, but these are
    /// out of use: they stay in the graphs and send empty messages.
    Inactive,
}

/// What is to be done to the inter-robot factors of two robots in one tick.
#[derive(Debug, Clone, Copy, PartialEq, Eq, Hash, Structural)]
pub enum LinkAction {
    /// Make a matched pair of factors, one in each graph, in use.
    Create,
    /// Put the factors that are there in use again.
    Reactivate,
    /// Put the factors that are there out of use.
    Deactivate,
    /// Leave everything as it is.
    Keep,
}

/// Whether two robots reach each other: both antennas are switched on, and
/// the robots are no further apart than the smaller of their two radii
/// (`within_radius`).
pub open spec fn spec_in_range(
    first_active: bool,
    second_active: bool,
    within_radius: bool,
) -> bool {
    first_active && second_active && within_radius
}

/// The state of a link after a tick in which the robots reach each other
/// (`in_range`) or not.
pub open spec fn spec_next_link(link: Link, in_range: bool) -> Link {
    if in_range {
        Link::Active
    } else if link == Link::Missing {
        Link::Missing
    } else {
        Link::Inactive
    }
}

/// What is done to the factors of a link in a tick in which the robots
/// reach each other (`in_range`) or not.
pub open spec fn spec_link_action(link: Link, in_range: bool) -> LinkAction {
    match (link, in_range) {
        (Link::Missing, true) => LinkAction::Create,
        (Link::Inactive, true) => LinkAction::Reactivate,
        (Link::Active, false) => LinkAction::Deactivate,
        _ => LinkAction::Keep,
    }
}

/// Whether two robots reach each other.
pub fn in_range(first_active: bool, second_active: bool, within_radius: bool) -> (reach: bool)
    ensures
        reach == spec_in_range(first_active, second_active, within_radius),
{
    first_active && second_active && within_radius
}

/// Decides what happens to the link between two robots in one tick: the new
/// state of the link, and what is to be done to the inter-robot factors.
/// Robots that reach each other get their factors, or get them back in use;
/// robots that no longer reach each other keep their factors, out of use.
pub fn update_link(link: Link, in_range: bool) -> (step: (Link, LinkAction))
    ensures
        step.0 == spec_next_link(link, in_range),
        step.1 == spec_link_action(link, in_range),
{
    match link {
        Link::Missing => if in_range {
            (Link::Active, LinkAction::Create)
        } else {
            (Link::Missing, LinkAction::Keep)
        },
        Link::Inactive => if in_range {
            (Link::Active, LinkAction::Reactivate)
        } else {
            (Link::Inactive, LinkAction::Keep)
        },
        Link::Active => if in_range {
            (Link::Active, LinkAction::Keep)
        } else {
            (Link::Inactive, LinkAction::Deactivate)
        },
    }
}

/// Which robot is named first makes no difference to whether two robots
/// reach each other, as long as it makes none to the test of their distance.
pub proof fn lemma_in_range_symmetric(first_active: bool, second_active: bool, within_radius: bool)
    ensures
        spec_in_range(first_active, second_active, within_radius) == spec_in_range(
            second_active,
            first_active,
            within_radius,
        ),
{
}

/// After a tick a link is in use exactly if the robots reach each other;
/// factors are never taken out of a graph; and a second tick under the same
/// conditions changes nothing.
pub proof fn lemma_link_settles(link: Link, in_range: bool)
    ensures
        spec_next_link(link, in_range) == Link::Active <==> in_range,
        link != Link::Missing ==> spec_next_link(link, in_range) != Link::Missing,
        spec_next_link(spec_next_link(link, in_range), in_range) == spec_next_link(link, in_range),
        spec_link_action(spec_next_link(link, in_range), in_range) == LinkAction::Keep,
{
}

} // verus!
