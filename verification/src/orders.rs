//! Editing and cancelling orders: which changes an order accepts, which lines
//! are rewritten, added or removed, and what goes back to the kitchen.
use vstd::prelude::*;
use vstd::string::*;

use crate::audit::AuditNote;
use crate::status::{parse_order_status, OrderStatus};
use crate::text::{
    int_text, int_to_text, join2, join3, join4, join5, join6, opt_text, same_optional_text,
    same_text,
};

verus! {

// ---------------------------------------------------------------------------
// Order status
// ---------------------------------------------------------------------------

/// An order is final once it is billed, completed or cancelled.
pub open spec fn order_is_final(status: Seq<char>) -> bool {
    match parse_order_status(status) {
        Some(s) => s != OrderStatus::Pending,
        None => false,
    }
}

/// The final statuses are exactly Billed, Completed and Cancelled: a pending
/// order, or one whose status is not a known label, can still be edited.
pub proof fn lemma_final_statuses(status: Seq<char>)
    ensures
        order_is_final(status) <==> (status == "Billed"@ || status == "Completed"@ || status == "Cancelled"@),
{
    reveal_strlit("Pending");
    reveal_strlit("Billed");
    reveal_strlit("Completed");
    reveal_strlit("Cancelled");
    assert("Pending"@.len() != "Billed"@.len());
    assert("Pending"@.len() != "Completed"@.len());
    assert("Pending"@.len() != "Cancelled"@.len());
}

/// The check made before an order is edited.
pub fn check_order_editable(status: &str) -> (r: Result<(), String>)
    ensures
        r is Ok <==> !order_is_final(status@),
        r is Err <==> (status@ == "Billed"@ || status@ == "Completed"@ || status@ == "Cancelled"@),
        r matches Err(m) ==> m@ == "Cannot update order in its current final status"@,
{
    proof {
        lemma_final_statuses(status@);
    }
    match OrderStatus::parse(status) {
        Some(OrderStatus::Pending) | None => Ok(()),
        _ => Err(String::from_str("Cannot update order in its current final status")),
    }
}

// ---------------------------------------------------------------------------
// Order edits
// ---------------------------------------------------------------------------

/// A line of an order as stored. `price_key` stands for the stored price: two
/// prices are equal exactly when their keys are.
pub struct StoredItem {
    pub id: i64,
    pub product_id: i64,
    pub quantity: i64,
    pub price_key: u64,
    pub notes: Option<String>,
    /// The line has been sent to the kitchen on a ticket.
    pub sent_to_kitchen: bool,
}

/// A line of an order as the edited order lists it; `id` is `None` for a new line.
pub struct IncomingItem {
    pub id: Option<i64>,
    pub product_id: i64,
    pub name: String,
    pub quantity: i64,
    pub price_key: u64,
    pub notes: Option<String>,
}

/// What happens to the stored order for one incoming line.
#[derive(Clone, Copy, Debug, PartialEq, Eq, Structural)]
pub enum ItemAction {
    /// A sent line that is listed unchanged.
    Keep,
    /// A sent line whose notes change: only the notes are rewritten.
    RewriteNotes,
    /// A line not yet sent: quantity, notes and price are rewritten.
    Rewrite,
    /// A new line is added.
    Insert,
}

/// The accepted edit of an order.
pub struct OrderUpdatePlan {
    /// One action per incoming line, in the same order.
    pub actions: Vec<ItemAction>,
    /// Ids of the stored lines that the edit no longer lists, in stored order.
    pub removed: Vec<i64>,
    /// Some line of the edited order has not been sent to the kitchen yet, so
    /// a new ticket is raised for such lines.
    pub needs_kitchen_ticket: bool,
    /// The lines of that new ticket: the listed stored lines not yet sent, in
    /// stored order, then the added lines, in incoming order.
    pub ticket: Vec<TicketLine>,
}

/// Which order line a line of the new kitchen ticket stands for: a stored
/// line by its id, or an added line by its position among the incoming lines.
#[derive(Clone, Copy, Debug, PartialEq, Eq, Structural)]
pub enum TicketItem {
    Stored(i64),
    Added(usize),
}

/// A line of the new kitchen ticket, as the edited order line reads.
pub struct TicketLine {
    pub item: TicketItem,
    pub product_id: i64,
    pub quantity: i64,
    pub notes: Option<String>,
}

/// The position of the last incoming line that refers to stored line `id`
/// (the one whose rewrite stays), or -1.
pub open spec fn last_reference(incoming: Seq<IncomingItem>, id: i64) -> int
    decreases incoming.len(),
{
    if incoming.len() == 0 {
        -1
    } else if incoming.last().id == Some(id) {
        incoming.len() - 1
    } else {
        last_reference(incoming.drop_last(), id)
    }
}

/// Positions of the stored lines that are listed and not yet sent, in order.
pub open spec fn unsent_listed_positions(stored: Seq<StoredItem>, incoming: Seq<IncomingItem>) -> Seq<int>
    decreases stored.len(),
{
    if stored.len() == 0 {
        Seq::empty()
    } else {
        let rest = unsent_listed_positions(stored.drop_last(), incoming);
        if !stored.last().sent_to_kitchen && is_listed(incoming, stored.last().id) {
            rest.push(stored.len() - 1)
        } else {
            rest
        }
    }
}

/// Positions of the added incoming lines, in order.
pub open spec fn added_positions(incoming: Seq<IncomingItem>) -> Seq<int>
    decreases incoming.len(),
{
    if incoming.len() == 0 {
        Seq::empty()
    } else {
        let rest = added_positions(incoming.drop_last());
        if incoming.last().id is None {
            rest.push(incoming.len() - 1)
        } else {
            rest
        }
    }
}

/// The ticket line of stored line `s`, rewritten by incoming line `inc`: the
/// product stays, quantity and notes are the rewritten ones.
pub open spec fn is_kept_unsent_line(line: TicketLine, s: StoredItem, inc: IncomingItem) -> bool {
    &&& line.item == TicketItem::Stored(s.id)
    &&& line.product_id == s.product_id
    &&& line.quantity == inc.quantity
    &&& opt_text(line.notes) == opt_text(inc.notes)
}

/// The ticket line of the added incoming line at position `i`.
pub open spec fn is_added_line(line: TicketLine, i: int, inc: IncomingItem) -> bool {
    &&& line.item == TicketItem::Added(i as usize)
    &&& line.product_id == inc.product_id
    &&& line.quantity == inc.quantity
    &&& opt_text(line.notes) == opt_text(inc.notes)
}

/// The new ticket's lines are those of `unsent_listed_positions`, then those
/// of `added_positions`.
pub open spec fn is_new_ticket(ticket: Seq<TicketLine>, stored: Seq<StoredItem>, incoming: Seq<IncomingItem>) -> bool {
    let sp = unsent_listed_positions(stored, incoming);
    let ap = added_positions(incoming);
    &&& ticket.len() == sp.len() + ap.len()
    &&& forall|j: int|
        0 <= j < sp.len() ==> is_kept_unsent_line(
            #[trigger] ticket[j],
            stored[sp[j]],
            incoming[last_reference(incoming, stored[sp[j]].id)],
        )
    &&& forall|j: int|
        0 <= j < ap.len() ==> is_added_line(#[trigger] ticket[sp.len() + j], ap[j], incoming[ap[j]])
}

/// The stored lines of one order carry distinct ids (the table's primary key).
pub open spec fn ids_distinct(stored: Seq<StoredItem>) -> bool {
    forall|i: int, j: int|
        0 <= i < stored.len() && 0 <= j < stored.len() && i != j ==> #[trigger] stored[i].id
            != #[trigger] stored[j].id
}

pub open spec fn has_id(stored: Seq<StoredItem>, id: i64) -> bool {
    exists|k: int| 0 <= k < stored.len() && stored[k].id == id
}

/// The position of the stored line with this id.
pub open spec fn stored_index(stored: Seq<StoredItem>, id: i64) -> int {
    choose|k: int| 0 <= k < stored.len() && stored[k].id == id
}

/// Some incoming line refers to the stored line with this id.
pub open spec fn is_listed(incoming: Seq<IncomingItem>, id: i64) -> bool {
    exists|i: int| 0 <= i < incoming.len() && incoming[i].id == Some(id)
}

/// The refusal that one incoming line causes, if any.
pub open spec fn incoming_error(stored: Seq<StoredItem>, item: IncomingItem) -> Option<Seq<char>> {
    match item.id {
        None => None,
        Some(x) => if !has_id(stored, x) {
            Some("Order item with ID "@ + int_text(x as int) + " not found in this order"@)
        } else {
            let s = stored[stored_index(stored, x)];
            if s.sent_to_kitchen && (item.product_id != s.product_id || item.quantity != s.quantity
                || item.price_key != s.price_key) {
                Some(
                    "Sent KOT item (ID "@ + int_text(x as int) + ", Product '"@ + item.name@
                        + "') is immutable. Modifications must go through the cancellation workflow."@,
                )
            } else {
                None
            }
        },
    }
}

/// The action for an incoming line that causes no refusal.
pub open spec fn incoming_action(stored: Seq<StoredItem>, item: IncomingItem) -> ItemAction {
    match item.id {
        None => ItemAction::Insert,
        Some(x) => {
            let s = stored[stored_index(stored, x)];
            if s.sent_to_kitchen {
                if opt_text(item.notes) != opt_text(s.notes) {
                    ItemAction::RewriteNotes
                } else {
                    ItemAction::Keep
                }
            } else {
                ItemAction::Rewrite
            }
        },
    }
}

/// The refusal of a stored line that the edit drops, if any: lines already
/// sent to the kitchen cannot be removed.
pub open spec fn removal_error(s: StoredItem) -> Seq<char> {
    "Cannot delete order item ID "@ + int_text(s.id as int)
        + " because it was already sent to the kitchen."@
}

/// Ids of the stored lines that the edit drops, in stored order.
pub open spec fn removed_ids(stored: Seq<StoredItem>, incoming: Seq<IncomingItem>) -> Seq<i64>
    decreases stored.len(),
{
    if stored.len() == 0 {
        Seq::empty()
    } else {
        let rest = removed_ids(stored.drop_last(), incoming);
        if is_listed(incoming, stored.last().id) {
            rest
        } else {
            rest.push(stored.last().id)
        }
    }
}

/// Some incoming line is refused.
pub open spec fn some_incoming_error(stored: Seq<StoredItem>, incoming: Seq<IncomingItem>) -> bool {
    exists|i: int| 0 <= i < incoming.len() && (#[trigger] incoming_error(stored, incoming[i])) is Some
}

/// Some line already sent to the kitchen is dropped by the edit.
pub open spec fn drops_sent_line(stored: Seq<StoredItem>, incoming: Seq<IncomingItem>) -> bool {
    exists|k: int|
        0 <= k < stored.len() && #[trigger] stored[k].sent_to_kitchen && !is_listed(
            incoming,
            stored[k].id,
        )
}

/// After the edit some line of the order is not on a kitchen ticket: a new
/// line, or a listed stored line that was not sent.
pub open spec fn leaves_unsent_line(stored: Seq<StoredItem>, incoming: Seq<IncomingItem>) -> bool {
    ||| exists|i: int| 0 <= i < incoming.len() && (#[trigger] incoming[i]).id is None
    ||| exists|k: int|
        0 <= k < stored.len() && !(#[trigger] stored[k]).sent_to_kitchen && is_listed(
            incoming,
            stored[k].id,
        )
}

proof fn lemma_stored_index_unique(stored: Seq<StoredItem>, id: i64, k: int)
    requires
        ids_distinct(stored),
        0 <= k < stored.len(),
        stored[k].id == id,
    ensures
        stored_index(stored, id) == k,
{
    let c = stored_index(stored, id);
    assert(0 <= c < stored.len() && stored[c].id == id);
}

fn find_stored(stored: &Vec<StoredItem>, id: i64) -> (r: Option<usize>)
    requires
        ids_distinct(stored@),
    ensures
        r matches Some(k) ==> k < stored@.len() && stored@[k as int].id == id && stored_index(
            stored@,
            id,
        ) == k,
        r is None ==> !has_id(stored@, id),
{
    let n = stored.len();
    let mut k: usize = 0;
    while k < n
        invariant
            n == stored@.len(),
            ids_distinct(stored@),
            k <= n,
            forall|j: int| 0 <= j < k ==> stored@[j].id != id,
        decreases n - k,
    {
        if stored[k].id == id {
            proof { lemma_stored_index_unique(stored@, id, k as int); }
            return Some(k);
        }
        k = k + 1;
    }
    None
}

fn listed(incoming: &Vec<IncomingItem>, id: i64) -> (r: bool)
    ensures
        r == is_listed(incoming@, id),
{
    let n = incoming.len();
    let mut i: usize = 0;
    while i < n
        invariant
            n == incoming@.len(),
            i <= n,
            forall|j: int| 0 <= j < i ==> incoming@[j].id != Some(id),
        decreases n - i,
    {
        match incoming[i].id {
            Some(x) => {
                if x == id {
                    return true;
                }
            },
            None => {},
        }
        i = i + 1;
    }
    false
}

fn check_incoming(stored: &Vec<StoredItem>, item: &IncomingItem) -> (r: Result<ItemAction, String>)
    requires
        ids_distinct(stored@),
    ensures
        match incoming_error(stored@, *item) {
            Some(e) => r matches Err(m) && m@ == e,
            None => r == Ok::<ItemAction, String>(incoming_action(stored@, *item)),
        },
{
    match item.id {
        None => Ok(ItemAction::Insert),
        Some(x) => match find_stored(stored, x) {
            None => {
                let id_text = int_to_text(x);
                Err(join3("Order item with ID ", id_text.as_str(), " not found in this order"))
            },
            Some(k) => {
                let s = &stored[k];
                if s.sent_to_kitchen {
                    if item.product_id != s.product_id || item.quantity != s.quantity
                        || item.price_key != s.price_key {
                        let id_text = int_to_text(x);
                        Err(
                            join5(
                                "Sent KOT item (ID ",
                                id_text.as_str(),
                                ", Product '",
                                item.name.as_str(),
                                "') is immutable. Modifications must go through the cancellation workflow.",
                            ),
                        )
                    } else if same_optional_text(&item.notes, &s.notes) {
                        Ok(ItemAction::Keep)
                    } else {
                        Ok(ItemAction::RewriteNotes)
                    }
                } else {
                    Ok(ItemAction::Rewrite)
                }
            },
        },
    }
}

/// Walks the stored lines: refuses the first dropped line that was sent to the
/// kitchen, and otherwise returns the dropped ids and whether a listed line is
/// still unsent.
fn scan_dropped_lines(stored: &Vec<StoredItem>, incoming: &Vec<IncomingItem>) -> (r: Result<(Vec<i64>, bool), String>)
    ensures
        r is Ok <==> !drops_sent_line(stored@, incoming@),
        r matches Err(m) ==> exists|k: int|
            0 <= k < stored@.len() && stored@[k].sent_to_kitchen && !is_listed(
                incoming@,
                stored@[k].id,
            ) && (forall|j: int|
                0 <= j < k ==> !((#[trigger] stored@[j]).sent_to_kitchen && !is_listed(
                    incoming@,
                    stored@[j].id,
                ))) && m@ == removal_error(stored@[k]),
        r matches Ok((removed, listed_unsent)) ==> {
            &&& removed@ == removed_ids(stored@, incoming@)
            &&& listed_unsent == exists|j: int|
                0 <= j < stored@.len() && !(#[trigger] stored@[j]).sent_to_kitchen && is_listed(
                    incoming@,
                    stored@[j].id,
                )
        },
{
    let m = stored.len();
    let mut removed: Vec<i64> = Vec::new();
    let mut listed_unsent = false;
    let mut k: usize = 0;
    while k < m
        invariant
            m == stored@.len(),
            k <= m,
            forall|j: int|
                0 <= j < k ==> !((#[trigger] stored@[j]).sent_to_kitchen && !is_listed(
                    incoming@,
                    stored@[j].id,
                )),
            removed@ == removed_ids(stored@.take(k as int), incoming@),
            listed_unsent == exists|j: int|
                0 <= j < k && !(#[trigger] stored@[j]).sent_to_kitchen && is_listed(
                    incoming@,
                    stored@[j].id,
                ),
        decreases m - k,
    {
        let s = &stored[k];
        let is_in = listed(incoming, s.id);
        proof {
            assert(stored@.take(k + 1).drop_last() =~= stored@.take(k as int));
            assert(stored@.take(k + 1).last() == stored@[k as int]);
        }
        if !is_in {
            if s.sent_to_kitchen {
                let id_text = int_to_text(s.id);
                let msg = join3(
                    "Cannot delete order item ID ",
                    id_text.as_str(),
                    " because it was already sent to the kitchen.",
                );
                return Err(msg);
            }
            removed.push(s.id);
        } else if !s.sent_to_kitchen {
            listed_unsent = true;
        }
        k = k + 1;
    }
    assert(stored@.take(m as int) =~= stored@);
    Ok((removed, listed_unsent))
}

/// Decides an edit of an order whose stored lines are `stored` and which now
/// lists `incoming`. The first refused incoming line (in order) refuses the
/// edit; otherwise the first dropped line that was already sent to the
/// kitchen (in stored order) does; otherwise the edit is accepted, and the
/// plan gives each incoming line its action, the dropped lines, whether a
/// kitchen ticket is due, and that ticket's lines: every listed line not yet
/// sent (as rewritten) and every added line. Lines already sent to the kitchen keep their
/// product, quantity and price and are never dropped.
#[verifier::spinoff_prover]
pub fn plan_order_update(stored: &Vec<StoredItem>, incoming: &Vec<IncomingItem>) -> (r: Result<OrderUpdatePlan, String>)
    requires
        ids_distinct(stored@),
    ensures
        r is Ok <==> !some_incoming_error(stored@, incoming@) && !drops_sent_line(stored@, incoming@),
        some_incoming_error(stored@, incoming@) ==> (r matches Err(m) && exists|i: int|
            0 <= i < incoming@.len() && (forall|j: int| 0 <= j < i ==> (#[trigger] incoming_error(
                stored@,
                incoming@[j],
            )) is None) && incoming_error(stored@, incoming@[i]) == Some(m@)),
        !some_incoming_error(stored@, incoming@) && drops_sent_line(stored@, incoming@) ==> (r matches Err(m)
            && exists|k: int|
            0 <= k < stored@.len() && stored@[k].sent_to_kitchen && !is_listed(
                incoming@,
                stored@[k].id,
            ) && (forall|j: int|
                0 <= j < k ==> !((#[trigger] stored@[j]).sent_to_kitchen && !is_listed(
                    incoming@,
                    stored@[j].id,
                ))) && m@ == removal_error(stored@[k])),
        r matches Ok(plan) ==> {
            &&& plan.actions@.len() == incoming@.len()
            &&& forall|i: int|
                0 <= i < incoming@.len() ==> plan.actions@[i] == incoming_action(
                    stored@,
                    #[trigger] incoming@[i],
                )
            &&& plan.removed@ == removed_ids(stored@, incoming@)
            &&& plan.needs_kitchen_ticket == leaves_unsent_line(stored@, incoming@)
            &&& plan.needs_kitchen_ticket == (plan.ticket@.len() > 0)
            &&& is_new_ticket(plan.ticket@, stored@, incoming@)
        },
        r matches Ok(plan) ==> {
            &&& forall|k: int|
                0 <= k < stored@.len() && !stored@[k].sent_to_kitchen && is_listed(incoming@, stored@[k].id)
                    ==> exists|j: int|
                    0 <= j < plan.ticket@.len() && (#[trigger] plan.ticket@[j]).item == TicketItem::Stored(
                        stored@[k].id,
                    )
            &&& forall|i: int|
                0 <= i < incoming@.len() && incoming@[i].id is None ==> exists|j: int|
                    0 <= j < plan.ticket@.len() && (#[trigger] plan.ticket@[j]).item == TicketItem::Added(
                        i as usize,
                    )
        },
        r matches Ok(listed_plan) ==> forall|i: int, k: int|
            #![trigger listed_plan.actions@[i], stored@[k]]
            0 <= i < incoming@.len() && 0 <= k < stored@.len() && incoming@[i].id == Some(stored@[k].id)
                ==> listed_plan.actions@[i] == (if !stored@[k].sent_to_kitchen {
                ItemAction::Rewrite
            } else if opt_text(incoming@[i].notes) == opt_text(stored@[k].notes) {
                ItemAction::Keep
            } else {
                ItemAction::RewriteNotes
            }),
        r matches Ok(added_plan) ==> forall|i: int|
            0 <= i < incoming@.len() && (#[trigger] incoming@[i]).id is None ==> added_plan.actions@[i]
                == ItemAction::Insert,
{
    let n = incoming.len();
    let mut actions: Vec<ItemAction> = Vec::new();
    let mut has_new = false;
    let mut i: usize = 0;
    while i < n
        invariant
            n == incoming@.len(),
            ids_distinct(stored@),
            i <= n,
            actions@.len() == i,
            forall|j: int| 0 <= j < i ==> (#[trigger] incoming_error(stored@, incoming@[j])) is None,
            forall|j: int|
                0 <= j < i ==> actions@[j] == incoming_action(stored@, #[trigger] incoming@[j]),
            has_new == exists|j: int| 0 <= j < i && (#[trigger] incoming@[j]).id is None,
        decreases n - i,
    {
        match check_incoming(stored, &incoming[i]) {
            Err(m) => {
                return Err(m);
            },
            Ok(a) => {
                if incoming[i].id.is_none() {
                    has_new = true;
                }
                actions.push(a);
            },
        }
        i = i + 1;
    }
    proof {
        lemma_actions_follow_lines(stored@, incoming@, actions@);
    }
    let (removed, listed_unsent) = scan_dropped_lines(stored, incoming)?;
    let ticket = new_ticket_lines(stored, incoming);
    proof {
        lemma_unsent_listed_positions(stored@, incoming@);
        lemma_added_positions(incoming@);
        let sp = unsent_listed_positions(stored@, incoming@);
        let ap = added_positions(incoming@);
        if has_new {
            let i0 = choose|i0: int| 0 <= i0 < incoming@.len() && (#[trigger] incoming@[i0]).id is None;
            let j0 = choose|j0: int| 0 <= j0 < ap.len() && ap[j0] == i0;
            assert(ap.len() > 0);
        }
        if listed_unsent {
            let k0 = choose|k0: int|
                0 <= k0 < stored@.len() && !(#[trigger] stored@[k0]).sent_to_kitchen && is_listed(
                    incoming@,
                    stored@[k0].id,
                );
            let j0 = choose|j0: int| 0 <= j0 < sp.len() && sp[j0] == k0;
            assert(sp.len() > 0);
        }
        if sp.len() > 0 {
            assert(!stored@[sp[0]].sent_to_kitchen && is_listed(incoming@, stored@[sp[0]].id));
        }
        if ap.len() > 0 {
            assert(incoming@[ap[0]].id is None);
        }
        assert forall|k: int|
            0 <= k < stored@.len() && !stored@[k].sent_to_kitchen && is_listed(incoming@, stored@[k].id)
                implies exists|j: int|
                0 <= j < ticket@.len() && (#[trigger] ticket@[j]).item == TicketItem::Stored(stored@[k].id) by {
            let j0 = choose|j0: int| 0 <= j0 < sp.len() && sp[j0] == k;
            assert(ticket@[j0].item == TicketItem::Stored(stored@[k].id));
        }
        assert forall|i: int| 0 <= i < incoming@.len() && incoming@[i].id is None implies exists|j: int|
            0 <= j < ticket@.len() && (#[trigger] ticket@[j]).item == TicketItem::Added(i as usize) by {
            let j0 = choose|j0: int| 0 <= j0 < ap.len() && ap[j0] == i;
            assert(ticket@[sp.len() + j0].item == TicketItem::Added(i as usize));
        }
    }
    Ok(OrderUpdatePlan { actions, removed, needs_kitchen_ticket: has_new || listed_unsent, ticket })
}

/// What an edit does to a listed stored line: a line not yet sent is
/// rewritten; a sent line keeps its contents, and its notes are rewritten
/// exactly when the incoming notes differ from the stored ones (a note added
/// to a line without one included). The line is refused exactly when it was
/// sent and its product, quantity or price changes.
pub proof fn lemma_listed_line_action(stored: Seq<StoredItem>, item: IncomingItem, k: int)
    requires
        ids_distinct(stored),
        0 <= k < stored.len(),
        item.id == Some(stored[k].id),
    ensures
        !stored[k].sent_to_kitchen ==> incoming_action(stored, item) == ItemAction::Rewrite,
        stored[k].sent_to_kitchen && opt_text(item.notes) == opt_text(stored[k].notes)
            ==> incoming_action(stored, item) == ItemAction::Keep,
        stored[k].sent_to_kitchen && opt_text(item.notes) != opt_text(stored[k].notes)
            ==> incoming_action(stored, item) == ItemAction::RewriteNotes,
        incoming_error(stored, item) is Some <==> stored[k].sent_to_kitchen && (item.product_id != stored[k].product_id
            || item.quantity != stored[k].quantity || item.price_key != stored[k].price_key),
{
    lemma_stored_index_unique(stored, stored[k].id, k);
}

/// An incoming line that names an id of no stored line is refused.
pub proof fn lemma_unknown_line_refused(stored: Seq<StoredItem>, item: IncomingItem)
    requires
        item.id is Some,
        forall|k: int| 0 <= k < stored.len() ==> (#[trigger] stored[k]).id != item.id->0,
    ensures
        incoming_error(stored, item) is Some,
{
}

proof fn lemma_actions_follow_lines(stored: Seq<StoredItem>, incoming: Seq<IncomingItem>, actions: Seq<ItemAction>)
    requires
        ids_distinct(stored),
        actions.len() == incoming.len(),
        forall|i: int| 0 <= i < incoming.len() ==> actions[i] == incoming_action(stored, #[trigger] incoming[i]),
    ensures
        forall|i: int, k: int|
            #![trigger actions[i], stored[k]]
            0 <= i < incoming.len() && 0 <= k < stored.len() && incoming[i].id == Some(stored[k].id)
                ==> actions[i] == (if !stored[k].sent_to_kitchen {
                ItemAction::Rewrite
            } else if opt_text(incoming[i].notes) == opt_text(stored[k].notes) {
                ItemAction::Keep
            } else {
                ItemAction::RewriteNotes
            }),
        forall|i: int| 0 <= i < incoming.len() && (#[trigger] incoming[i]).id is None ==> actions[i] == ItemAction::Insert,
{
    assert forall|i: int, k: int|
        #![trigger actions[i], stored[k]]
        0 <= i < incoming.len() && 0 <= k < stored.len() && incoming[i].id == Some(stored[k].id)
            implies actions[i] == (if !stored[k].sent_to_kitchen {
            ItemAction::Rewrite
        } else if opt_text(incoming[i].notes) == opt_text(stored[k].notes) {
            ItemAction::Keep
        } else {
            ItemAction::RewriteNotes
        }) by {
        assert(actions[i] == incoming_action(stored, incoming[i]));
        lemma_listed_line_action(stored, incoming[i], k);
    }
    assert forall|i: int| 0 <= i < incoming.len() && (#[trigger] incoming[i]).id is None implies actions[i]
        == ItemAction::Insert by {
        assert(actions[i] == incoming_action(stored, incoming[i]));
    }
}

/// An incoming line without an id is always added.
pub proof fn lemma_new_line_action(stored: Seq<StoredItem>, item: IncomingItem)
    requires
        item.id is None,
    ensures
        incoming_action(stored, item) == ItemAction::Insert,
        incoming_error(stored, item) is None,
{
}

proof fn lemma_last_reference(incoming: Seq<IncomingItem>, id: i64)
    ensures
        is_listed(incoming, id) ==> {
            &&& 0 <= last_reference(incoming, id) < incoming.len()
            &&& incoming[last_reference(incoming, id)].id == Some(id)
        },
        !is_listed(incoming, id) ==> last_reference(incoming, id) == -1,
    decreases incoming.len(),
{
    if incoming.len() > 0 {
        let init = incoming.drop_last();
        lemma_last_reference(init, id);
        if is_listed(init, id) {
            let i = choose|i: int| 0 <= i < init.len() && init[i].id == Some(id);
            assert(incoming[i].id == Some(id));
        }
        if is_listed(incoming, id) && incoming.last().id != Some(id) {
            let i = choose|i: int| 0 <= i < incoming.len() && incoming[i].id == Some(id);
            assert(init[i].id == Some(id));
        }
        if incoming.last().id == Some(id) {
            assert(incoming[incoming.len() - 1].id == Some(id));
        }
    }
}

/// An accepted edit puts every listed stored line not yet sent on the new
/// ticket, and nothing else from the stored lines: the positions of its
/// stored part are exactly those of the listed stored lines not yet sent.
pub proof fn lemma_unsent_listed_positions(stored: Seq<StoredItem>, incoming: Seq<IncomingItem>)
    ensures
        forall|j: int|
            0 <= j < unsent_listed_positions(stored, incoming).len() ==> {
                let k = #[trigger] unsent_listed_positions(stored, incoming)[j];
                &&& 0 <= k < stored.len()
                &&& !stored[k].sent_to_kitchen
                &&& is_listed(incoming, stored[k].id)
            },
        forall|k: int|
            0 <= k < stored.len() && !(#[trigger] stored[k]).sent_to_kitchen && is_listed(incoming, stored[k].id)
                ==> exists|j: int|
                0 <= j < unsent_listed_positions(stored, incoming).len() && unsent_listed_positions(
                    stored,
                    incoming,
                )[j] == k,
    decreases stored.len(),
{
    if stored.len() > 0 {
        let init = stored.drop_last();
        lemma_unsent_listed_positions(init, incoming);
        let rest = unsent_listed_positions(init, incoming);
        let sp = unsent_listed_positions(stored, incoming);
        assert forall|j: int| 0 <= j < sp.len() implies {
            let k = #[trigger] sp[j];
            &&& 0 <= k < stored.len()
            &&& !stored[k].sent_to_kitchen
            &&& is_listed(incoming, stored[k].id)
        } by {
            if j < rest.len() {
                assert(sp[j] == rest[j]);
                assert(init[rest[j]] == stored[rest[j]]);
            }
        }
        assert forall|k: int|
            0 <= k < stored.len() && !(#[trigger] stored[k]).sent_to_kitchen && is_listed(incoming, stored[k].id)
                implies exists|j: int| 0 <= j < sp.len() && sp[j] == k by {
            if k < stored.len() - 1 {
                assert(init[k] == stored[k]);
                assert(!init[k].sent_to_kitchen);
                let j = choose|j: int| 0 <= j < rest.len() && rest[j] == k;
                assert(sp[j] == k);
            } else {
                assert(sp[rest.len() as int] == k);
            }
        }
    }
}

/// An accepted edit puts every added line on the new ticket: the positions
/// of its added part are exactly those of the added incoming lines.
pub proof fn lemma_added_positions(incoming: Seq<IncomingItem>)
    ensures
        forall|j: int|
            0 <= j < added_positions(incoming).len() ==> {
                let i = #[trigger] added_positions(incoming)[j];
                &&& 0 <= i < incoming.len()
                &&& incoming[i].id is None
            },
        forall|i: int|
            0 <= i < incoming.len() && (#[trigger] incoming[i]).id is None ==> exists|j: int|
                0 <= j < added_positions(incoming).len() && added_positions(incoming)[j] == i,
    decreases incoming.len(),
{
    if incoming.len() > 0 {
        let init = incoming.drop_last();
        lemma_added_positions(init);
        let rest = added_positions(init);
        let ap = added_positions(incoming);
        assert forall|j: int| 0 <= j < ap.len() implies {
            let i = #[trigger] ap[j];
            &&& 0 <= i < incoming.len()
            &&& incoming[i].id is None
        } by {
            if j < rest.len() {
                assert(ap[j] == rest[j]);
                assert(init[rest[j]] == incoming[rest[j]]);
            }
        }
        assert forall|i: int| 0 <= i < incoming.len() && (#[trigger] incoming[i]).id is None implies exists|j: int|
            0 <= j < ap.len() && ap[j] == i by {
            if i < incoming.len() - 1 {
                assert(init[i] == incoming[i]);
                let j = choose|j: int| 0 <= j < rest.len() && rest[j] == i;
                assert(ap[j] == i);
            } else {
                assert(ap[rest.len() as int] == i);
            }
        }
    }
}

fn copy_notes(notes: &Option<String>) -> (r: Option<String>)
    ensures
        opt_text(r) == opt_text(*notes),
{
    match notes {
        Some(n) => Some(n.clone()),
        None => None,
    }
}

fn last_reference_of(incoming: &Vec<IncomingItem>, id: i64) -> (r: usize)
    requires
        is_listed(incoming@, id),
    ensures
        r == last_reference(incoming@, id),
        r < incoming@.len(),
{
    proof { lemma_last_reference(incoming@, id); }
    let n = incoming.len();
    let mut found: i64 = -1;
    let mut last: usize = 0;
    let mut i: usize = 0;
    while i < n
        invariant
            n == incoming@.len(),
            i <= n,
            found == -1 || found == 1,
            found == -1 ==> last_reference(incoming@.take(i as int), id) == -1,
            found == 1 ==> last < i && last == last_reference(incoming@.take(i as int), id),
        decreases n - i,
    {
        proof {
            assert(incoming@.take(i + 1).drop_last() =~= incoming@.take(i as int));
            assert(incoming@.take(i + 1).last() == incoming@[i as int]);
        }
        if incoming[i].id == Some(id) {
            found = 1;
            last = i;
        }
        i = i + 1;
    }
    assert(incoming@.take(n as int) =~= incoming@);
    last
}

/// The lines of the ticket an accepted edit raises.
fn new_ticket_lines(stored: &Vec<StoredItem>, incoming: &Vec<IncomingItem>) -> (ticket: Vec<TicketLine>)
    ensures
        is_new_ticket(ticket@, stored@, incoming@),
{
    let m = stored.len();
    let mut ticket: Vec<TicketLine> = Vec::new();
    let mut k: usize = 0;
    while k < m
        invariant
            m == stored@.len(),
            k <= m,
            ticket@.len() == unsent_listed_positions(stored@.take(k as int), incoming@).len(),
            forall|j: int|
                0 <= j < ticket@.len() ==> {
                    let sp = unsent_listed_positions(stored@.take(k as int), incoming@);
                    is_kept_unsent_line(
                        #[trigger] ticket@[j],
                        stored@[sp[j]],
                        incoming@[last_reference(incoming@, stored@[sp[j]].id)],
                    )
                },
        decreases m - k,
    {
        let s = &stored[k];
        proof {
            assert(stored@.take(k + 1).drop_last() =~= stored@.take(k as int));
            assert(stored@.take(k + 1).last() == stored@[k as int]);
            lemma_unsent_listed_positions(stored@.take(k as int), incoming@);
        }
        if !s.sent_to_kitchen && listed(incoming, s.id) {
            let r = last_reference_of(incoming, s.id);
            let notes = copy_notes(&incoming[r].notes);
            ticket.push(TicketLine { item: TicketItem::Stored(s.id), product_id: s.product_id, quantity: incoming[r].quantity, notes });
        }
        proof {
            let prev = unsent_listed_positions(stored@.take(k as int), incoming@);
            let next = unsent_listed_positions(stored@.take(k + 1), incoming@);
            assert forall|j: int| 0 <= j < ticket@.len() implies is_kept_unsent_line(
                #[trigger] ticket@[j],
                stored@[next[j]],
                incoming@[last_reference(incoming@, stored@[next[j]].id)],
            ) by {
                if j < prev.len() {
                    assert(next[j] == prev[j]);
                    assert(stored@.take(k as int)[prev[j]] == stored@[prev[j]]);
                }
            }
        }
        k = k + 1;
    }
    assert(stored@.take(m as int) =~= stored@);
    let ghost sp = unsent_listed_positions(stored@, incoming@);
    let base = ticket.len();
    let n = incoming.len();
    let mut i: usize = 0;
    while i < n
        invariant
            n == incoming@.len(),
            i <= n,
            base == sp.len(),
            sp == unsent_listed_positions(stored@, incoming@),
            ticket@.len() == sp.len() + added_positions(incoming@.take(i as int)).len(),
            forall|j: int|
                0 <= j < sp.len() ==> is_kept_unsent_line(
                    #[trigger] ticket@[j],
                    stored@[sp[j]],
                    incoming@[last_reference(incoming@, stored@[sp[j]].id)],
                ),
            forall|j: int|
                0 <= j < added_positions(incoming@.take(i as int)).len() ==> {
                    let ap = added_positions(incoming@.take(i as int));
                    is_added_line(#[trigger] ticket@[sp.len() + j], ap[j], incoming@[ap[j]])
                },
        decreases n - i,
    {
        proof {
            assert(incoming@.take(i + 1).drop_last() =~= incoming@.take(i as int));
            assert(incoming@.take(i + 1).last() == incoming@[i as int]);
            lemma_added_positions(incoming@.take(i as int));
        }
        let ghost before = ticket@;
        if incoming[i].id.is_none() {
            let notes = copy_notes(&incoming[i].notes);
            ticket.push(TicketLine { item: TicketItem::Added(i), product_id: incoming[i].product_id, quantity: incoming[i].quantity, notes });
        }
        proof {
            let prev = added_positions(incoming@.take(i as int));
            let next = added_positions(incoming@.take(i + 1));
            assert forall|j: int| 0 <= j < sp.len() implies is_kept_unsent_line(
                #[trigger] ticket@[j],
                stored@[sp[j]],
                incoming@[last_reference(incoming@, stored@[sp[j]].id)],
            ) by {
                assert(ticket@[j] == before[j]);
            }
            assert forall|j: int| 0 <= j < next.len() implies is_added_line(
                #[trigger] ticket@[sp.len() + j],
                next[j],
                incoming@[next[j]],
            ) by {
                if j < prev.len() {
                    assert(next[j] == prev[j]);
                    assert(ticket@[sp.len() + j] == before[sp.len() + j]);
                    assert(incoming@.take(i as int)[prev[j]] == incoming@[prev[j]]);
                }
            }
        }
        i = i + 1;
    }
    assert(incoming@.take(n as int) =~= incoming@);
    ticket
}
/// Edits never touch what the kitchen already has: when an edit is accepted,
/// every line already sent to the kitchen is still listed, and every incoming
/// line that refers to it has its product, quantity and price and is either
/// kept or has only its notes rewritten.
pub proof fn lemma_sent_lines_are_immutable(stored: Seq<StoredItem>, incoming: Seq<IncomingItem>, k: int, i: int)
    requires
        ids_distinct(stored),
        !some_incoming_error(stored, incoming),
        !drops_sent_line(stored, incoming),
        0 <= k < stored.len(),
        stored[k].sent_to_kitchen,
    ensures
        is_listed(incoming, stored[k].id),
        0 <= i < incoming.len() && incoming[i].id == Some(stored[k].id) ==> {
            &&& incoming[i].product_id == stored[k].product_id
            &&& incoming[i].quantity == stored[k].quantity
            &&& incoming[i].price_key == stored[k].price_key
            &&& incoming_action(stored, incoming[i]) == ItemAction::Keep || incoming_action(
                stored,
                incoming[i],
            ) == ItemAction::RewriteNotes
        },
{
    if 0 <= i < incoming.len() && incoming[i].id == Some(stored[k].id) {
        lemma_stored_index_unique(stored, stored[k].id, k);
        assert(incoming_error(stored, incoming[i]) is None);
    }
}

/// An edit drops exactly the stored lines it no longer lists: an id is among
/// the dropped ones if and only if a stored line has it and no incoming line
/// refers to it.
pub proof fn lemma_edit_drops_exactly_unlisted_lines(stored: Seq<StoredItem>, incoming: Seq<IncomingItem>, id: i64)
    ensures
        removed_ids(stored, incoming).contains(id) <==> (has_id(stored, id) && !is_listed(incoming, id)),
    decreases stored.len(),
{
    if stored.len() > 0 {
        let init = stored.drop_last();
        lemma_edit_drops_exactly_unlisted_lines(init, incoming, id);
        let rest = removed_ids(init, incoming);
        if has_id(stored, id) && !is_listed(incoming, id) {
            let k = choose|k: int| 0 <= k < stored.len() && stored[k].id == id;
            if k < stored.len() - 1 {
                assert(init[k].id == id);
                assert(has_id(init, id));
            }
        }
        if has_id(init, id) {
            let k = choose|k: int| 0 <= k < init.len() && init[k].id == id;
            assert(stored[k].id == id);
        }
        if removed_ids(stored, incoming).contains(id) && !rest.contains(id) {
            let j = choose|j: int| 0 <= j < removed_ids(stored, incoming).len() && removed_ids(stored, incoming)[j] == id;
            if !is_listed(incoming, stored.last().id) {
                assert(removed_ids(stored, incoming) == rest.push(stored.last().id));
                if j < rest.len() {
                    assert(rest.contains(id));
                }
                assert(stored[stored.len() - 1].id == id);
            }
        }
        if rest.contains(id) {
            let j = choose|j: int| 0 <= j < rest.len() && rest[j] == id;
            if !is_listed(incoming, stored.last().id) {
                assert(removed_ids(stored, incoming)[j] == id);
            }
        }
        if !is_listed(incoming, stored.last().id) && stored.last().id == id {
            assert(removed_ids(stored, incoming)[rest.len() as int] == id);
        }
    }
}

/// The audit entry of an edit, written before the lines are changed.
pub fn order_update_note(order_id: i64, old_status: &str) -> (n: AuditNote)
    ensures
        n.describes(
            "update_order"@,
            "orders"@,
            Some(order_id),
            Some("Updating order. Old status: "@ + old_status@),
        ),
{
    AuditNote::new("update_order", "orders", Some(order_id), Some(join2("Updating order. Old status: ", old_status)))
}

/// The audit entry of a line added to an order.
pub fn item_added_note(item_id: i64, name: &str, quantity: i64, order_id: i64) -> (n: AuditNote)
    ensures
        n.describes(
            "add_item"@,
            "order_items"@,
            Some(item_id),
            Some("Added item "@ + name@ + " (Qty "@ + int_text(quantity as int) + ") to order "@
                + int_text(order_id as int)),
        ),
{
    let q = int_to_text(quantity);
    let o = int_to_text(order_id);
    AuditNote::new(
        "add_item",
        "order_items",
        Some(item_id),
        Some(join6("Added item ", name, " (Qty ", q.as_str(), ") to order ", o.as_str())),
    )
}

/// The audit entry of a line dropped from an order.
pub fn item_deleted_note(item_id: i64, order_id: i64) -> (n: AuditNote)
    ensures
        n.describes(
            "delete_item"@,
            "order_items"@,
            Some(item_id),
            Some("Deleted unsent item from order "@ + int_text(order_id as int)),
        ),
{
    let o = int_to_text(order_id);
    AuditNote::new("delete_item", "order_items", Some(item_id), Some(join2("Deleted unsent item from order ", o.as_str())))
}

/// The audit entry of a new order.
pub fn order_created_note(order_id: i64) -> (n: AuditNote)
    ensures
        n.describes("create_order"@, "orders"@, Some(order_id), Some("Created order in status Pending"@)),
{
    AuditNote::new("create_order", "orders", Some(order_id), Some(String::from_str("Created order in status Pending")))
}

/// The audit entry of a new kitchen ticket for an order.
pub fn kot_created_note(kot_id: i64, order_id: i64) -> (n: AuditNote)
    ensures
        n.describes(
            "create_kot"@,
            "kot"@,
            Some(kot_id),
            Some("Created KOT for order: "@ + int_text(order_id as int)),
        ),
{
    let o = int_to_text(order_id);
    AuditNote::new("create_kot", "kot", Some(kot_id), Some(join2("Created KOT for order: ", o.as_str())))
}

// ---------------------------------------------------------------------------
// Cancellations
// ---------------------------------------------------------------------------

/// What is left of a line: ordered minus cancelled.
pub open spec fn outstanding(quantity: i64, cancelled: i64) -> int {
    quantity - cancelled
}

/// The difference `quantity - cancelled` fits in an `i64`.
pub open spec fn difference_fits(quantity: i64, cancelled: i64) -> bool {
    i64::MIN <= quantity - cancelled <= i64::MAX
}

/// The quantity of a line that is billed: what is left, or nothing when no
/// positive quantity is left.
pub fn billable_quantity(quantity: i64, cancelled: i64) -> (r: i64)
    requires
        difference_fits(quantity, cancelled),
    ensures
        r == if outstanding(quantity, cancelled) > 0 { outstanding(quantity, cancelled) } else { 0 },
        quantity - cancelled > 0 ==> r == quantity - cancelled,
        quantity - cancelled <= 0 ==> r == 0,
{
    let left = quantity - cancelled;
    if left > 0 {
        left
    } else {
        0
    }
}

/// The note of a kitchen line that takes items back.
pub open spec fn cancellation_note_text(notes: Option<Seq<char>>, reason: Seq<char>) -> Seq<char> {
    match notes {
        Some(n) => "CANCELLED: "@ + n + " (Reason: "@ + reason + ")"@,
        None => "CANCELLED (Reason: "@ + reason + ")"@,
    }
}

pub fn cancellation_note(notes: &Option<String>, reason: &str) -> (s: String)
    ensures
        s@ == cancellation_note_text(opt_text(*notes), reason@),
{
    match notes {
        Some(n) => join5("CANCELLED: ", n.as_str(), " (Reason: ", reason, ")"),
        None => join3("CANCELLED (Reason: ", reason, ")"),
    }
}

/// Whether a request to cancel `requested` items of a line is accepted.
pub open spec fn item_cancellation_accepted(sent: bool, quantity: i64, cancelled: i64, requested: i64) -> bool {
    sent && 0 < requested <= outstanding(quantity, cancelled)
}

/// The check made before part of a line is cancelled: only lines sent to the
/// kitchen are cancelled this way, and at most what is left of them.
pub fn check_item_cancellation(sent: bool, quantity: i64, cancelled: i64, requested: i64) -> (r: Result<(), String>)
    requires
        sent ==> difference_fits(quantity, cancelled),
    ensures
        r is Ok <==> item_cancellation_accepted(sent, quantity, cancelled, requested),
        sent ==> (r is Ok <==> (0 < requested && requested <= quantity - cancelled)),
        !sent ==> r is Err,
        !sent ==> (r matches Err(m) && m@
            == "Cannot cancel an item that has not been sent to the kitchen. You can remove it from the cart directly."@),
        sent && !item_cancellation_accepted(sent, quantity, cancelled, requested) ==> (r matches Err(m)
            && m@ == "Invalid quantity to cancel: requested "@ + int_text(requested as int)
            + ", effective is "@ + int_text(outstanding(quantity, cancelled))),
{
    if !sent {
        return Err(
            String::from_str(
                "Cannot cancel an item that has not been sent to the kitchen. You can remove it from the cart directly.",
            ),
        );
    }
    let left = quantity - cancelled;
    if requested <= 0 || requested > left {
        let r_text = int_to_text(requested);
        let l_text = int_to_text(left);
        return Err(join4("Invalid quantity to cancel: requested ", r_text.as_str(), ", effective is ", l_text.as_str()));
    }
    Ok(())
}

/// The rule for cancelling part of a line: a line not yet sent is never
/// cancelled this way, and for a sent line any positive request up to what is
/// left (ordered minus already cancelled) is accepted, all that is left
/// included.
pub proof fn lemma_item_cancellation_rule(sent: bool, quantity: i64, cancelled: i64, requested: i64)
    ensures
        item_cancellation_accepted(sent, quantity, cancelled, requested) <==> (sent && 0 < requested
            && requested <= quantity - cancelled),
        sent && 0 < quantity - cancelled <= i64::MAX ==> item_cancellation_accepted(
            sent,
            quantity,
            cancelled,
            (quantity - cancelled) as i64,
        ),
{
}

/// Cancelled quantities of a line stay within what was ordered: starting from
/// a line with nothing over-cancelled, every sequence of accepted requests
/// leaves a non-negative quantity, and each accepted request lowers it.
pub proof fn lemma_cancellations_stay_within_order(quantity: i64, cancelled: i64, requests: Seq<i64>)
    requires
        outstanding(quantity, cancelled) >= 0,
        accepted_in_turn(quantity, cancelled as int, requests),
    ensures
        quantity - (cancelled + total(requests)) >= 0,
        requests.len() > 0 ==> quantity - (cancelled + total(requests)) < outstanding(quantity, cancelled),
    decreases requests.len(),
{
    if requests.len() > 0 {
        let c2 = cancelled + requests[0];
        assert(total(requests) == requests[0] + total(requests.drop_first()));
        lemma_cancellations_stay_within_order_int(quantity as int, c2, requests.drop_first());
    }
}

proof fn lemma_cancellations_stay_within_order_int(quantity: int, cancelled: int, requests: Seq<i64>)
    requires
        quantity - cancelled >= 0,
        accepted_in_turn_int(quantity, cancelled, requests),
    ensures
        quantity - (cancelled + total(requests)) >= 0,
        quantity - (cancelled + total(requests)) <= quantity - cancelled,
    decreases requests.len(),
{
    if requests.len() > 0 {
        assert(total(requests) == requests[0] + total(requests.drop_first()));
        lemma_cancellations_stay_within_order_int(quantity, cancelled + requests[0], requests.drop_first());
    }
}

/// Sum of the requested quantities.
pub open spec fn total(requests: Seq<i64>) -> int
    decreases requests.len(),
{
    if requests.len() == 0 {
        0
    } else {
        requests[0] + total(requests.drop_first())
    }
}

/// Each request, taken in turn, is accepted for a sent line of `quantity`
/// that already has `cancelled` items cancelled.
pub open spec fn accepted_in_turn(quantity: i64, cancelled: int, requests: Seq<i64>) -> bool {
    accepted_in_turn_int(quantity as int, cancelled, requests)
}

pub open spec fn accepted_in_turn_int(quantity: int, cancelled: int, requests: Seq<i64>) -> bool
    decreases requests.len(),
{
    if requests.len() == 0 {
        true
    } else {
        0 < requests[0] <= quantity - cancelled && accepted_in_turn_int(
            quantity,
            cancelled + requests[0],
            requests.drop_first(),
        )
    }
}

/// A line of an order as a whole-order cancellation sees it.
pub struct ItemStanding {
    pub product_id: i64,
    pub quantity: i64,
    pub cancelled_quantity: i64,
    pub notes: Option<String>,
    pub sent_to_kitchen: bool,
}

/// A kitchen ticket line; a negative quantity takes items back.
pub struct KitchenLine {
    pub product_id: i64,
    pub quantity: i64,
    pub notes: String,
}

/// The line goes back to the kitchen: it was sent and some of it is left.
pub open spec fn goes_back_to_kitchen(it: ItemStanding) -> bool {
    it.sent_to_kitchen && outstanding(it.quantity, it.cancelled_quantity) > 0
}

/// Positions of the lines that go back to the kitchen, in order.
pub open spec fn returned_positions(items: Seq<ItemStanding>) -> Seq<int>
    decreases items.len(),
{
    if items.len() == 0 {
        Seq::empty()
    } else {
        let rest = returned_positions(items.drop_last());
        if goes_back_to_kitchen(items.last()) {
            rest.push(items.len() - 1)
        } else {
            rest
        }
    }
}

pub open spec fn all_differences_fit(items: Seq<ItemStanding>) -> bool {
    forall|k: int|
        0 <= k < items.len() ==> difference_fits(
            (#[trigger] items[k]).quantity,
            items[k].cancelled_quantity,
        )
}

/// The kitchen line that takes back what is left of `it`.
pub open spec fn is_return_line(line: KitchenLine, it: ItemStanding, reason: Seq<char>) -> bool {
    &&& line.product_id == it.product_id
    &&& line.quantity == -outstanding(it.quantity, it.cancelled_quantity)
    &&& line.notes@ == cancellation_note_text(opt_text(it.notes), reason)
}

proof fn lemma_returned_positions_bounds(items: Seq<ItemStanding>)
    ensures
        forall|j: int|
            0 <= j < returned_positions(items).len() ==> 0 <= #[trigger] returned_positions(items)[j]
                < items.len(),
    decreases items.len(),
{
    if items.len() > 0 {
        let rest = returned_positions(items.drop_last());
        lemma_returned_positions_bounds(items.drop_last());
        assert forall|j: int| 0 <= j < returned_positions(items).len() implies 0 <= #[trigger] returned_positions(items)[j] < items.len() by {
            if j < rest.len() {
                assert(returned_positions(items)[j] == rest[j]);
            }
        }
    }
}

/// The check made before a whole order is cancelled: it must not be cancelled already.
pub fn check_order_cancellable(status: &str) -> (r: Result<(), String>)
    ensures
        r is Ok <==> status@ != "Cancelled"@,
        r matches Err(m) ==> m@ == "Order is already cancelled"@,
{
    if same_text(status, "Cancelled") {
        Err(String::from_str("Order is already cancelled"))
    } else {
        Ok(())
    }
}

/// What a whole-order cancellation sends back to the kitchen: everything left
/// of the lines already sent, one kitchen line each, in order, with the
/// quantity negated.
pub fn kitchen_returns(items: &Vec<ItemStanding>, reason: &str) -> (lines: Vec<KitchenLine>)
    requires
        all_differences_fit(items@),
    ensures
        lines@.len() == returned_positions(items@).len(),
        forall|j: int|
            0 <= j < lines@.len() ==> is_return_line(
                #[trigger] lines@[j],
                items@[returned_positions(items@)[j]],
                reason@,
            ),
        forall|k: int|
            #![trigger items@[k]]
            0 <= k < items@.len() && items@[k].sent_to_kitchen && items@[k].quantity
                - items@[k].cancelled_quantity > 0 ==> exists|j: int|
                0 <= j < lines@.len() && #[trigger] returned_positions(items@)[j] == k
                    && lines@[j].product_id == items@[k].product_id && lines@[j].quantity
                    == items@[k].cancelled_quantity - items@[k].quantity,
        forall|j: int|
            0 <= j < lines@.len() ==> {
                let k = #[trigger] returned_positions(items@)[j];
                &&& 0 <= k < items@.len()
                &&& items@[k].sent_to_kitchen
                &&& items@[k].quantity - items@[k].cancelled_quantity > 0
            },
        forall|j1: int, j2: int|
            #![trigger returned_positions(items@)[j1], returned_positions(items@)[j2]]
            0 <= j1 < j2 < lines@.len() ==> returned_positions(items@)[j1] < returned_positions(items@)[j2],
{
    let n = items.len();
    let mut lines: Vec<KitchenLine> = Vec::new();
    let mut k: usize = 0;
    while k < n
        invariant
            n == items@.len(),
            all_differences_fit(items@),
            k <= n,
            lines@.len() == returned_positions(items@.take(k as int)).len(),
            forall|j: int|
                0 <= j < lines@.len() ==> is_return_line(
                    #[trigger] lines@[j],
                    items@[returned_positions(items@.take(k as int))[j]],
                    reason@,
                ),
        decreases n - k,
    {
        let it = &items[k];
        proof {
            assert(items@.take(k + 1).drop_last() =~= items@.take(k as int));
            assert(items@.take(k + 1).last() == items@[k as int]);
            lemma_returned_positions_bounds(items@.take(k as int));
        }
        assert(difference_fits(items@[k as int].quantity, items@[k as int].cancelled_quantity));
        let left = it.quantity - it.cancelled_quantity;
        if left > 0 && it.sent_to_kitchen {
            let notes = cancellation_note(&it.notes, reason);
            lines.push(KitchenLine { product_id: it.product_id, quantity: -left, notes });
        }
        proof {
            let prev = returned_positions(items@.take(k as int));
            let next = returned_positions(items@.take(k + 1));
            assert forall|j: int| 0 <= j < lines@.len() implies is_return_line(
                #[trigger] lines@[j],
                items@[next[j]],
                reason@,
            ) by {
                if j < prev.len() {
                    assert(next[j] == prev[j]);
                    assert(items@.take(k as int)[prev[j]] == items@[prev[j]]);
                }
            }
        }
        k = k + 1;
    }
    assert(items@.take(n as int) =~= items@);
    proof {
        lemma_returned_positions_bounds(items@);
        lemma_returned_positions_qualify(items@);
        lemma_returned_positions_complete(items@);
        let rp = returned_positions(items@);
        assert forall|k: int|
            #![trigger items@[k]]
            0 <= k < items@.len() && items@[k].sent_to_kitchen && items@[k].quantity
                - items@[k].cancelled_quantity > 0 implies exists|j: int|
                0 <= j < lines@.len() && #[trigger] rp[j] == k && lines@[j].product_id
                    == items@[k].product_id && lines@[j].quantity == items@[k].cancelled_quantity
                    - items@[k].quantity by {
            assert(goes_back_to_kitchen(items@[k]));
            let j = choose|j: int| 0 <= j < rp.len() && rp[j] == k;
            assert(is_return_line(lines@[j], items@[rp[j]], reason@));
        }
        assert forall|j: int| 0 <= j < lines@.len() implies {
            let k = #[trigger] rp[j];
            &&& 0 <= k < items@.len()
            &&& items@[k].sent_to_kitchen
            &&& items@[k].quantity - items@[k].cancelled_quantity > 0
        } by {
            assert(goes_back_to_kitchen(items@[rp[j]]));
        }
    }
    lines
}

/// Cancelling a whole order takes back from the kitchen every line that was
/// sent and still has something left (`quantity - cancelled > 0`), whatever
/// that quantity is, exactly once; and it takes back nothing else.
pub proof fn lemma_sent_lines_go_back_once(items: Seq<ItemStanding>)
    ensures
        forall|k: int|
            0 <= k < items.len() && (#[trigger] items[k]).sent_to_kitchen && items[k].quantity
                - items[k].cancelled_quantity > 0 ==> exists|j: int|
                0 <= j < returned_positions(items).len() && returned_positions(items)[j] == k && forall|j2: int|
                    0 <= j2 < returned_positions(items).len() && #[trigger] returned_positions(items)[j2] == k
                        ==> j2 == j,
        forall|j: int|
            0 <= j < returned_positions(items).len() ==> {
                let k = #[trigger] returned_positions(items)[j];
                &&& 0 <= k < items.len()
                &&& items[k].sent_to_kitchen
                &&& items[k].quantity - items[k].cancelled_quantity > 0
            },
{
    lemma_returned_positions_complete(items);
    lemma_returned_positions_bounds(items);
    lemma_returned_positions_qualify(items);
    let rp = returned_positions(items);
    assert forall|j: int| 0 <= j < rp.len() implies {
        let k = #[trigger] rp[j];
        &&& 0 <= k < items.len()
        &&& items[k].sent_to_kitchen
        &&& items[k].quantity - items[k].cancelled_quantity > 0
    } by {
        assert(goes_back_to_kitchen(items[rp[j]]));
    }
    assert forall|k: int|
        0 <= k < items.len() && (#[trigger] items[k]).sent_to_kitchen && items[k].quantity
            - items[k].cancelled_quantity > 0 implies exists|j: int|
            0 <= j < rp.len() && rp[j] == k && forall|j2: int| 0 <= j2 < rp.len() && #[trigger] rp[j2] == k ==> j2 == j by {
        assert(goes_back_to_kitchen(items[k]));
        let j = choose|j: int| 0 <= j < rp.len() && rp[j] == k;
        assert forall|j2: int| 0 <= j2 < rp.len() && #[trigger] rp[j2] == k implies j2 == j by {
            if j2 < j {
                assert(rp[j2] < rp[j]);
            } else if j < j2 {
                assert(rp[j] < rp[j2]);
            }
        }
    }
}

/// Each line that goes back to the kitchen appears among the returned
/// positions, and the positions increase, so it appears exactly once.
proof fn lemma_returned_positions_complete(items: Seq<ItemStanding>)
    ensures
        forall|k: int|
            0 <= k < items.len() && goes_back_to_kitchen(#[trigger] items[k]) ==> exists|j: int|
                0 <= j < returned_positions(items).len() && returned_positions(items)[j] == k,
        forall|j1: int, j2: int|
            #![trigger returned_positions(items)[j1], returned_positions(items)[j2]]
            0 <= j1 < j2 < returned_positions(items).len() ==> returned_positions(items)[j1]
                < returned_positions(items)[j2],
    decreases items.len(),
{
    if items.len() > 0 {
        let init = items.drop_last();
        lemma_returned_positions_complete(init);
        lemma_returned_positions_bounds(init);
        let rest = returned_positions(init);
        let rp = returned_positions(items);
        assert forall|k: int| 0 <= k < items.len() && goes_back_to_kitchen(#[trigger] items[k]) implies exists|j: int|
            0 <= j < rp.len() && rp[j] == k by {
            if k < items.len() - 1 {
                assert(init[k] == items[k]);
                let j = choose|j: int| 0 <= j < rest.len() && rest[j] == k;
                assert(rp[j] == k);
            } else {
                assert(rp[rest.len() as int] == k);
            }
        }
        assert forall|j1: int, j2: int|
            #![trigger rp[j1], rp[j2]]
            0 <= j1 < j2 < rp.len() implies rp[j1] < rp[j2] by {
            if j2 < rest.len() {
                assert(rp[j1] == rest[j1] && rp[j2] == rest[j2]);
            } else {
                assert(rp[j1] == rest[j1]);
                assert(rest[j1] < init.len());
            }
        }
    }
}

/// Every kitchen line of a cancellation takes items back: its quantity is
/// negative, and the line it stands for was sent and had items left.
pub proof fn lemma_returns_only_take_back(items: Seq<ItemStanding>, lines: Seq<KitchenLine>, reason: Seq<char>, j: int)
    requires
        lines.len() == returned_positions(items).len(),
        forall|k: int|
            0 <= k < lines.len() ==> is_return_line(
                #[trigger] lines[k],
                items[returned_positions(items)[k]],
                reason,
            ),
        0 <= j < lines.len(),
    ensures
        lines[j].quantity < 0,
        0 <= returned_positions(items)[j] < items.len(),
        goes_back_to_kitchen(items[returned_positions(items)[j]]),
        outstanding(
            items[returned_positions(items)[j]].quantity,
            items[returned_positions(items)[j]].cancelled_quantity,
        ) + lines[j].quantity == 0,
{
    lemma_returned_positions_bounds(items);
    lemma_returned_positions_qualify(items);
    assert(is_return_line(lines[j], items[returned_positions(items)[j]], reason));
}

proof fn lemma_returned_positions_qualify(items: Seq<ItemStanding>)
    ensures
        forall|j: int|
            0 <= j < returned_positions(items).len() ==> goes_back_to_kitchen(
                items[#[trigger] returned_positions(items)[j]],
            ),
    decreases items.len(),
{
    if items.len() > 0 {
        let rest = returned_positions(items.drop_last());
        lemma_returned_positions_qualify(items.drop_last());
        lemma_returned_positions_bounds(items.drop_last());
        assert forall|j: int| 0 <= j < returned_positions(items).len() implies goes_back_to_kitchen(
            items[#[trigger] returned_positions(items)[j]],
        ) by {
            if j < rest.len() {
                assert(returned_positions(items)[j] == rest[j]);
                assert(items.drop_last()[rest[j]] == items[rest[j]]);
            }
        }
    }
}

/// The audit entry of a cancelled order.
pub fn order_cancelled_note(order_id: i64, reason: &str) -> (n: AuditNote)
    ensures
        n.describes(
            "cancel_order"@,
            "orders"@,
            Some(order_id),
            Some("Cancelled entire order. Reason: "@ + reason@),
        ),
{
    AuditNote::new("cancel_order", "orders", Some(order_id), Some(join2("Cancelled entire order. Reason: ", reason)))
}

/// The audit entry of a partly cancelled line.
pub fn item_cancelled_note(item_id: i64, quantity: i64, name: &str, reason: &str) -> (n: AuditNote)
    ensures
        n.describes(
            "cancel_item"@,
            "order_items"@,
            Some(item_id),
            Some("Cancelled "@ + int_text(quantity as int) + " x "@ + name@ + ". Reason: "@ + reason@),
        ),
{
    let q = int_to_text(quantity);
    AuditNote::new(
        "cancel_item",
        "order_items",
        Some(item_id),
        Some(join6("Cancelled ", q.as_str(), " x ", name, ". Reason: ", reason)),
    )
}

} // verus!
