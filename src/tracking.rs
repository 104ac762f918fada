//! The vocabulary of customer tracking: follow-up actions and customer groups.
use vstd::prelude::*;
use crate::text::same_text;

verus! {

/// What happens after a follow-up.
#[derive(Debug, Clone, Copy, PartialEq, Eq)]
pub enum NextAction {
    /// Keep following the customer up.
    Continue,
    /// Stop following the customer up.
    End,
}

/// The label of [`NextAction::Continue`].
pub const CONTINUE_LABEL: &'static str = "继续跟进";

/// The label of [`NextAction::End`].
pub const END_LABEL: &'static str = "结束跟进";

/// The label of a follow-up action.
pub open spec fn action_label(a: NextAction) -> Seq<char> {
    match a {
        NextAction::Continue => CONTINUE_LABEL@,
        NextAction::End => END_LABEL@,
    }
}

impl NextAction {
    /// The action recorded when none is given.
    pub fn default_action() -> (r: NextAction)
        ensures
            r == NextAction::Continue,
    {
        NextAction::Continue
    }

    /// The label under which the action is stored and shown.
    pub fn as_str(&self) -> (r: &'static str)
        ensures
            r@ == action_label(*self),
    {
        match self {
            NextAction::Continue => CONTINUE_LABEL,
            NextAction::End => END_LABEL,
        }
    }

    /// The action with label `s`, if any.
    pub fn from_str(s: &str) -> (r: Option<NextAction>)
        ensures
            r == (if s@ == CONTINUE_LABEL@ {
                Some(NextAction::Continue)
            } else if s@ == END_LABEL@ {
                Some(NextAction::End)
            } else {
                None::<NextAction>
            }),
    {
        if same_text(s, CONTINUE_LABEL) {
            Some(NextAction::Continue)
        } else if same_text(s, END_LABEL) {
            Some(NextAction::End)
        } else {
            None
        }
    }

    /// A customer's current action: that of the latest follow-up, or
    /// [`NextAction::Continue`] for a customer without follow-ups.
    pub fn current(latest: Option<NextAction>) -> (r: NextAction)
        ensures
            r == match latest {
                Some(a) => a,
                None => NextAction::Continue,
            },
    {
        match latest {
            Some(a) => a,
            None => NextAction::Continue,
        }
    }

    /// Whether a customer whose current action is `self` is listed under
    /// `filter`: every customer is listed when there is no filter.
    pub fn passes(&self, filter: Option<NextAction>) -> (r: bool)
        ensures
            r == match filter {
                Some(f) => f == *self,
                None => true,
            },
    {
        match filter {
            Some(NextAction::Continue) => self.is_continue(),
            Some(NextAction::End) => !self.is_continue(),
            None => true,
        }
    }

    fn is_continue(&self) -> (r: bool)
        ensures
            r == (*self == NextAction::Continue),
    {
        match self {
            NextAction::Continue => true,
            NextAction::End => false,
        }
    }

    /// The labels of all actions, in declaration order.
    pub fn variants() -> (r: Vec<&'static str>)
        ensures
            r@.len() == 2,
            r@[0]@ == CONTINUE_LABEL@,
            r@[1]@ == END_LABEL@,
    {
        vec![CONTINUE_LABEL, END_LABEL]
    }
}

/// Reading a label back gives the action it came from.
pub proof fn lemma_action_label_round_trip(a: NextAction)
    ensures
        (if action_label(a) == CONTINUE_LABEL@ {
            Some(NextAction::Continue)
        } else if action_label(a) == END_LABEL@ {
            Some(NextAction::End)
        } else {
            None::<NextAction>
        }) == Some(a),
{
    reveal_strlit("继续跟进");
    reveal_strlit("结束跟进");
    assert(CONTINUE_LABEL@[0] != END_LABEL@[0]);
}

/// The kind of class a customer belongs to.
#[derive(Debug, Clone, Copy, PartialEq, Eq)]
pub enum CustomerGroup {
    GroupClass,
    SmallClass,
    Personal,
    Training,
}

/// The label of a customer group.
pub open spec fn group_label(g: CustomerGroup) -> Seq<char> {
    match g {
        CustomerGroup::GroupClass => "团课"@,
        CustomerGroup::SmallClass => "小班"@,
        CustomerGroup::Personal => "私教"@,
        CustomerGroup::Training => "教培"@,
    }
}

/// The variant name of a customer group, also accepted when reading.
pub open spec fn group_name(g: CustomerGroup) -> Seq<char> {
    match g {
        CustomerGroup::GroupClass => "GroupClass"@,
        CustomerGroup::SmallClass => "SmallClass"@,
        CustomerGroup::Personal => "Personal"@,
        CustomerGroup::Training => "Training"@,
    }
}

impl CustomerGroup {
    /// The group of a new customer when none is given.
    pub fn default_group() -> (r: CustomerGroup)
        ensures
            r == CustomerGroup::GroupClass,
    {
        CustomerGroup::GroupClass
    }

    /// The label under which the group is stored and shown.
    pub fn label(&self) -> (r: &'static str)
        ensures
            r@ == group_label(*self),
    {
        match self {
            CustomerGroup::GroupClass => "团课",
            CustomerGroup::SmallClass => "小班",
            CustomerGroup::Personal => "私教",
            CustomerGroup::Training => "教培",
        }
    }

    /// The group whose label or variant name is `s`, if any.
    pub fn parse(s: &str) -> (r: Option<CustomerGroup>)
        ensures
            forall|g: CustomerGroup| #![auto] r == Some(g) ==> s@ == group_label(g) || s@ == group_name(g),
            r is None ==> forall|g: CustomerGroup| #![auto] s@ != group_label(g) && s@ != group_name(g),
    {
        if same_text(s, "团课") || same_text(s, "GroupClass") {
            Some(CustomerGroup::GroupClass)
        } else if same_text(s, "小班") || same_text(s, "SmallClass") {
            Some(CustomerGroup::SmallClass)
        } else if same_text(s, "私教") || same_text(s, "Personal") {
            Some(CustomerGroup::Personal)
        } else if same_text(s, "教培") || same_text(s, "Training") {
            Some(CustomerGroup::Training)
        } else {
            None
        }
    }
}

/// An optional text field as edited: an empty text clears it.
pub fn blank_to_none(s: String) -> (r: Option<String>)
    ensures
        match r {
            Some(t) => t@ == s@ && s@.len() > 0,
            None => s@.len() == 0,
        },
{
    if s.as_str().is_empty() {
        None
    } else {
        Some(s)
    }
}

/// The actions offered when recording a follow-up.
#[derive(Debug, Clone, PartialEq, Eq)]
pub struct NextActionsResponse {
    pub actions: Vec<String>,
}

impl NextActionsResponse {
    /// Every action's label, in declaration order.
    pub fn all() -> (r: NextActionsResponse)
        ensures
            r.actions@.len() == 2,
            r.actions@[0]@ == CONTINUE_LABEL@,
            r.actions@[1]@ == END_LABEL@,
    {
        let mut actions: Vec<String> = Vec::new();
        actions.push(CONTINUE_LABEL.to_owned());
        actions.push(END_LABEL.to_owned());
        NextActionsResponse { actions }
    }
}

/// A customer as shown beside its follow-ups.
#[derive(Debug, Clone, PartialEq, Eq)]
pub struct CustomerInfo {
    pub id: i32,
    pub name: String,
    pub phone: Option<String>,
    pub rate: i32,
}

/// Which follow-ups to list: those of one customer, one page at a time.
#[derive(Debug, Clone, PartialEq, Eq)]
pub struct TrackListQuery {
    pub customer_id: i32,
    pub page: u64,
    pub limit: u64,
}

impl TrackListQuery {
    /// The first page, of the default size, of a customer's follow-ups.
    pub fn for_customer(customer_id: i32) -> (r: TrackListQuery)
        ensures
            r.customer_id == customer_id,
            r.page == 1,
            r.limit == 20,
    {
        TrackListQuery {
            customer_id,
            page: crate::pagination::default_page(),
            limit: crate::pagination::default_limit(),
        }
    }
}

} // verus!
