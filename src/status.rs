use vstd::prelude::*;

verus! {

/// Severity of a monitored item, from best to worst. There is no maintenance
/// status: every replica counts in every rollup.
#[derive(Clone, Copy, Debug, PartialEq, Eq, Structural)]
pub enum Status {
    Healthy,
    Sick,
    Dead,
}

/// Rank of a status in the severity order `Dead > Sick > Healthy`.
pub open spec fn severity(s: Status) -> nat {
    match s {
        Status::Healthy => 0,
        Status::Sick => 1,
        Status::Dead => 2,
    }
}

/// The more severe of two statuses.
pub open spec fn worst(a: Status, b: Status) -> Status {
    if severity(b) > severity(a) {
        b
    } else {
        a
    }
}

/// Cumulative `worst` over a sequence of child statuses, starting from `Healthy`.
pub open spec fn rollup(children: Seq<Status>) -> Status
    decreases children.len(),
{
    if children.len() == 0 {
        Status::Healthy
    } else {
        worst(rollup(children.drop_last()), children.last())
    }
}

pub open spec fn status_text(s: Status) -> Seq<char> {
    match s {
        Status::Healthy => "healthy"@,
        Status::Sick => "sick"@,
        Status::Dead => "dead"@,
    }
}

pub open spec fn status_icon(s: Status) -> Seq<char> {
    match s {
        Status::Dead => "\u{274c}"@,
        Status::Sick => "\u{26a0}"@,
        Status::Healthy => "\u{2705}"@,
    }
}

impl Status {
    pub fn as_str(&self) -> (r: &'static str)
        ensures
            r@ == status_text(*self),
    {
        match self {
            Status::Healthy => "healthy",
            Status::Sick => "sick",
            Status::Dead => "dead",
        }
    }

    pub fn as_icon(&self) -> (r: &'static str)
        ensures
            r@ == status_icon(*self),
    {
        match self {
            Status::Dead => "\u{274c}",
            Status::Sick => "\u{26a0}",
            Status::Healthy => "\u{2705}",
        }
    }
}

/// The status a container takes after seeing one more child: `Dead` for a
/// dead child, `Sick` for a sick child under a container that is not dead,
/// `None` when the container keeps its status.
pub fn check_child_status(parent_status: &Status, child_status: &Status) -> (r: Option<Status>)
    ensures
        r == (if *child_status == Status::Dead {
            Some(Status::Dead)
        } else if *child_status == Status::Sick && *parent_status != Status::Dead {
            Some(Status::Sick)
        } else {
            None::<Status>
        }),
{
    if *child_status == Status::Dead {
        Some(Status::Dead)
    } else if *child_status == Status::Sick && *parent_status != Status::Dead {
        Some(Status::Sick)
    } else {
        None
    }
}

/// `worseOf`: the container status after seeing one more child.
pub fn worse_of(parent_status: Status, child_status: Status) -> (r: Status)
    ensures
        r == worst(parent_status, child_status),
{
    match check_child_status(&parent_status, &child_status) {
        Some(s) => s,
        None => parent_status,
    }
}

/// `s` is the maximum severity over `children`: no child is worse, and `s`
/// is one of them (`Healthy` when there are none).
pub open spec fn is_worst_of(s: Status, children: Seq<Status>) -> bool {
    &&& forall|i: int| 0 <= i < children.len() ==> severity(#[trigger] children[i]) <= severity(s)
    &&& children.len() == 0 ==> s == Status::Healthy
    &&& children.len() > 0 ==> exists|i: int| 0 <= i < children.len() && children[i] == s
}

/// A rollup is the maximum severity over the children.
pub proof fn lemma_rollup_is_max(children: Seq<Status>)
    ensures
        is_worst_of(rollup(children), children),
    decreases children.len(),
{
    if children.len() > 0 {
        let init = children.drop_last();
        lemma_rollup_is_max(init);
        assert forall|i: int| 0 <= i < children.len() implies severity(#[trigger] children[i]) <= severity(rollup(children)) by {
            if i < children.len() - 1 {
                assert(children[i] == init[i]);
            }
        }
        if init.len() > 0 && rollup(children) == rollup(init) {
            let j = choose|j: int| 0 <= j < init.len() && init[j] == rollup(init);
            assert(children[j] == init[j]);
        } else if rollup(children) == rollup(init) {
            assert(rollup(init) == Status::Healthy);
            assert(children[children.len() - 1] == children.last());
            assert(severity(children.last()) <= 0);
        } else {
            assert(children[children.len() - 1] == children.last());
        }
    }
}

/// A single dead child makes the whole rollup dead, whatever its siblings are.
pub proof fn lemma_rollup_dead_sticky(children: Seq<Status>, i: int)
    requires
        0 <= i < children.len(),
        children[i] == Status::Dead,
    ensures
        rollup(children) == Status::Dead,
{
    lemma_rollup_is_max(children);
    assert(severity(children[i]) <= severity(rollup(children)));
}

} // verus!
