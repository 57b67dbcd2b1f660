//! Timed reminders: when a reminder starts, what it posts, and the registry of
//! running reminders by id, from which they are disabled.

use crate::text::digit_char;
use std::collections::HashMap;
use vstd::prelude::*;
use vstd::string::*;

verus! {

broadcast use vstd::std_specs::hash::group_hash_axioms;

/// Seconds to wait before looking at the clock again while a reminder has not
/// started yet.
pub const START_POLL_SECONDS: u64 = 30;

/// The text uuid's `Uuid::parse_str` reads as a uuid, as its 128-bit value, or
/// `None` where it returns an error.
pub uninterp spec fn parsed_uuid(text: Seq<char>) -> Option<u128>;

/// The lower-case hexadecimal digit of a value below 16.
pub open spec fn hex_digit(n: u128) -> char {
    if n < 10 {
        digit_char(n as nat)
    } else if n == 10 {
        'a'
    } else if n == 11 {
        'b'
    } else if n == 12 {
        'c'
    } else if n == 13 {
        'd'
    } else if n == 14 {
        'e'
    } else {
        'f'
    }
}

/// The `k`-th of the 32 hexadecimal digits of `id`, most significant first.
pub open spec fn nibble(id: u128, k: int) -> u128 {
    (id >> ((4 * (31 - k)) as u128)) & 0xfu128
}

/// Which hexadecimal digit stands at position `i` of the hyphenated form.
pub open spec fn hyphenated_digit_index(i: int) -> int {
    if i < 8 {
        i
    } else if i < 13 {
        i - 1
    } else if i < 18 {
        i - 2
    } else if i < 23 {
        i - 3
    } else {
        i - 4
    }
}

/// The hyphenated form of a uuid, as uuid's `Display` writes it: its 32
/// lower-case hexadecimal digits, most significant first, in groups of 8, 4,
/// 4, 4 and 12 joined by hyphens.
pub open spec fn hyphenated_text(id: u128) -> Seq<char> {
    Seq::new(
        36,
        |i: int|
            if i == 8 || i == 13 || i == 18 || i == 23 {
                '-'
            } else {
                hex_digit(nibble(id, hyphenated_digit_index(i)))
            },
    )
}

/// Calls uuid's `Uuid::parse_str` and reads the parsed uuid as a `u128`.
/// Claimed of it: the result is the named parse result of the text; which
/// texts uuid accepts (hyphenated, simple, urn and braced forms) is left unsaid.
#[verifier::external_body]
fn parse_uuid(text: &str) -> (r: Option<u128>)
    ensures
        r == parsed_uuid(text@),
{
    match uuid::Uuid::parse_str(text) {
        Ok(u) => Some(u.as_u128()),
        Err(_) => None,
    }
}

/// Calls uuid's `Display` on `Uuid::from_u128(id)` (through `to_string`).
/// Claimed of it: the text is the hyphenated lower-case form of the id
/// (`Display` writes `as_hyphenated()` in lower-case hex, and `from_u128` keeps
/// the most significant byte first), and `Uuid::parse_str` reads that text back
/// as the same id (uuid documents that `parse_str` accepts every format it writes).
#[verifier::external_body]
fn uuid_to_text(id: u128) -> (r: String)
    ensures
        r@ == hyphenated_text(id),
        parsed_uuid(r@) == Some(id),
{
    uuid::Uuid::from_u128(id).to_string()
}

/// A version-4 (random) uuid: version nibble 4 and the RFC 4122 variant bits.
pub open spec fn is_version_4(id: u128) -> bool {
    (id >> 76u128) & 0xfu128 == 4u128 && (id >> 62u128) & 0x3u128 == 2u128
}

/// Calls uuid's `Uuid::new_v4`, which draws from the operating system's random
/// source, and reads the uuid as a `u128`. Claimed of every outcome: it is a
/// version-4 uuid (uuid sets those bits after drawing); nothing more.
#[verifier::external_body]
fn random_uuid() -> (r: u128)
    ensures
        is_version_4(r),
{
    uuid::Uuid::new_v4().as_u128()
}

/// The announcement of a new reminder for the id `id`.
pub open spec fn announcement_text(id: u128) -> Seq<char> {
    "Uuid for the message is "@ + hyphenated_text(id)
}

/// Draws a fresh random id for a new reminder and the message that announces
/// it.
pub fn reminder_announcement() -> (r: (u128, String))
    ensures
        is_version_4(r.0),
        r.1@ == announcement_text(r.0),
        parsed_uuid(hyphenated_text(r.0)) == Some(r.0),
{
    let id = random_uuid();
    let mut message = String::new();
    message.append("Uuid for the message is ");
    let text = uuid_to_text(id);
    message.append(text.as_str());
    (id, message)
}

/// What a reminder waiting for its start time does next.
pub enum StartStep {
    /// The start time has passed: announce and start the reminder.
    Start,
    /// Wait `START_POLL_SECONDS` and look again; `clock_error` says whether the
    /// clock could not be read, which is reported first.
    Wait { clock_error: bool },
}

/// Decides, from the seconds since the Unix epoch (`None` where the clock could
/// not be read), whether a reminder due after `first` starts now.
pub fn reminder_start_step(now: Option<u64>, first: u64) -> (r: StartStep)
    ensures
        match now {
            Some(t) => if t > first {
                r is Start
            } else {
                r == (StartStep::Wait { clock_error: false })
            },
            None => r == (StartStep::Wait { clock_error: true }),
        },
{
    match now {
        Some(t) => if t > first {
            StartStep::Start
        } else {
            StartStep::Wait { clock_error: false }
        },
        None => StartStep::Wait { clock_error: true },
    }
}

/// What a running reminder posts each time it fires.
pub enum ReminderAction {
    /// The weekly Jumbo Cactpot announcement.
    Cactpot,
    /// The latest fashion report post, as the `fashion` command posts it.
    FashionReport,
    /// The reminder's command text itself.
    Say(String),
}

/// The post for a reminder whose command is `command`: the word `cactpot`
/// stands for the Jumbo Cactpot announcement, the word `fashion` for the
/// fashion report post, any other text is posted as it is.
pub fn reminder_action(command: &str) -> (r: ReminderAction)
    ensures
        command@ == "cactpot"@ ==> r is Cactpot,
        command@ == "fashion"@ ==> r is FashionReport,
        command@ != "cactpot"@ && command@ != "fashion"@ ==> (r matches ReminderAction::Say(text)
            && text@ == command@),
{
    let cactpot = String::from_str("cactpot");
    let fashion = String::from_str("fashion");
    let given = String::from_str(command);
    proof {
        reveal_strlit("cactpot");
        reveal_strlit("fashion");
        assert("cactpot"@[0] != "fashion"@[0]);
    }
    if given == cactpot {
        ReminderAction::Cactpot
    } else if given == fashion {
        ReminderAction::FashionReport
    } else {
        ReminderAction::Say(given)
    }
}

/// What became of a request to disable a reminder.
pub enum DisableOutcome<H> {
    /// The text is not a uuid; nothing changed.
    InvalidId,
    /// No running reminder has this id; nothing changed.
    NotFound,
    /// The reminder was taken out of the registry; here is its task, to stop.
    Disabled(H),
}

/// The running reminders, each held by its id.
pub struct Reminders<H> {
    active: HashMap<u128, H>,
}

impl<H> Reminders<H> {
    pub closed spec fn view(&self) -> Map<u128, H> {
        self.active@
    }

    /// No reminder runs.
    pub fn new() -> (r: Reminders<H>)
        ensures
            r.view() == Map::<u128, H>::empty(),
    {
        Reminders { active: HashMap::new() }
    }

    /// Holds the task `handle` of a new reminder under `id`. A reminder that
    /// had the same id is dropped from the registry and handed back.
    pub fn register(&mut self, id: u128, handle: H) -> (r: Option<H>)
        ensures
            final(self).view() == old(self).view().insert(id, handle),
            match r {
                Some(h) => old(self).view().contains_key(id) && h == old(self).view()[id],
                None => !old(self).view().contains_key(id),
            },
    {
        self.active.insert(id, handle)
    }

    /// Whether a reminder runs under `id`.
    pub fn is_active(&self, id: u128) -> (r: bool)
        ensures
            r == self.view().contains_key(id),
    {
        self.active.contains_key(&id)
    }
}

/// How disabling the reminder with the parsed id `id` changes the registry
/// `before` into `after` and what it returns.
pub open spec fn disable_effect<H>(
    before: Map<u128, H>,
    id: Option<u128>,
    after: Map<u128, H>,
    r: DisableOutcome<H>,
) -> bool {
    match id {
        None => r is InvalidId && after == before,
        Some(k) => {
            &&& after == before.remove(k)
            &&& if before.contains_key(k) {
                r == DisableOutcome::Disabled(before[k])
            } else {
                r is NotFound
            }
        },
    }
}

/// Disables the reminder whose id is written in `text`: a text that is not
/// a uuid, or names no running reminder, changes nothing; otherwise the
/// reminder leaves the registry and its task is handed back to be stopped.
pub fn disable_reminder<H>(reminders: &mut Reminders<H>, text: &str) -> (r: DisableOutcome<H>)
    ensures
        disable_effect(old(reminders).view(), parsed_uuid(text@), final(reminders).view(), r),
{
    match parse_uuid(text) {
        None => DisableOutcome::InvalidId,
        Some(id) => match reminders.active.remove(&id) {
            Some(h) => DisableOutcome::Disabled(h),
            None => DisableOutcome::NotFound,
        },
    }
}

/// A reminder registered under an id is handed back by disabling that id, and
/// is gone afterwards: disabling it once more finds nothing.
pub proof fn law_register_then_disable<H>(
    before: Map<u128, H>,
    id: u128,
    handle: H,
    after: Map<u128, H>,
    r: DisableOutcome<H>,
    again: Map<u128, H>,
    r2: DisableOutcome<H>,
)
    requires
        disable_effect(before.insert(id, handle), Some(id), after, r),
        disable_effect(after, Some(id), again, r2),
    ensures
        r == DisableOutcome::Disabled(handle),
        after == before.remove(id),
        !after.contains_key(id),
        r2 is NotFound,
        again == after,
{
    assert(before.insert(id, handle).remove(id) =~= before.remove(id));
    assert(after.remove(id) =~= after);
}

/// A reminder registered under the id it was announced with is handed back by
/// disabling it with the id as the announcement writes it, and is gone
/// afterwards. `reminder_announcement` ensures the hypothesis on the id for
/// every id it draws.
pub proof fn law_disable_with_announced_id<H>(
    before: Map<u128, H>,
    id: u128,
    handle: H,
    after: Map<u128, H>,
    r: DisableOutcome<H>,
)
    requires
        parsed_uuid(hyphenated_text(id)) == Some(id),
        disable_effect(before.insert(id, handle), parsed_uuid(hyphenated_text(id)), after, r),
    ensures
        r == DisableOutcome::Disabled(handle),
        after == before.remove(id),
        !after.contains_key(id),
{
    assert(before.insert(id, handle).remove(id) =~= before.remove(id));
}

} // verus!
