//! The decisions of the Telegram supervisor: which connectors to run, how a connector polls
//! and backs off, and how each incoming update is handled.
use vstd::prelude::*;
use vstd::string::*;
use vstd::arithmetic::power2::{pow2, lemma2_to64, lemma_pow2_unfold, lemma_pow2_strictly_increases};
use crate::error::AppError;
use crate::id_set::IdSet;
use crate::telegram::telegram_adapter::TelegramUpdate;
use crate::text::{chars_of, i64_to_decimal, int_decimal, law_int_decimal_injective, string_from_range};

verus! {

// ===== Backoff =====

/// The delay, in seconds, after `failures` consecutive failed polls: `2^failures`, capped at
/// five minutes.
pub open spec fn backoff_secs(failures: u32) -> nat {
    if pow2(failures as nat) < 300 {
        pow2(failures as nat)
    } else {
        300
    }
}

/// The delay, in seconds, after `failures` consecutive failed polls.
pub fn backoff(failures: u32) -> (secs: u64)
    ensures
        secs == backoff_secs(failures),
{
    proof {
        lemma2_to64();
    }
    if failures >= 9 {
        proof {
            if failures > 9 {
                lemma_pow2_strictly_increases(9, failures as nat);
            }
        }
        return 300;
    }
    let mut p: u64 = 1;
    let mut i: u32 = 0;
    while i < failures
        invariant
            i <= failures <= 8,
            p == pow2(i as nat),
        decreases failures - i,
    {
        proof {
            lemma_pow2_unfold((i + 1) as nat);
            if i + 1 < 8 {
                lemma_pow2_strictly_increases((i + 1) as nat, 8);
            }
            lemma2_to64();
        }
        p = p * 2;
        i = i + 1;
    }
    if p < 300 {
        p
    } else {
        300
    }
}

/// Law: the delay starts at one second and doubles with each further failure until it would
/// pass five minutes, from where it stays at five minutes.
pub proof fn law_backoff_doubles(failures: u32)
    ensures
        backoff_secs(0) == 1,
        failures < 8 ==> backoff_secs((failures + 1) as u32) == 2 * backoff_secs(failures),
        failures == 8 ==> backoff_secs(failures) == 256,
        failures >= 9 ==> backoff_secs(failures) == 300,
{
    lemma2_to64();
    if failures < 8 {
        lemma_pow2_unfold((failures + 1) as nat);
    }
    if failures > 9 {
        lemma_pow2_strictly_increases(9, failures as nat);
    }
}

/// Law: the delay never exceeds five minutes.
pub proof fn law_backoff_capped(failures: u32)
    ensures
        1 <= backoff_secs(failures) <= 300,
{
    vstd::arithmetic::power2::lemma_pow2_pos(failures as nat);
}

/// Law: the delay does not shrink as failures accumulate.
pub proof fn law_backoff_monotone(f1: u32, f2: u32)
    requires
        f1 <= f2,
    ensures
        backoff_secs(f1) <= backoff_secs(f2),
{
    if f1 < f2 {
        lemma_pow2_strictly_increases(f1 as nat, f2 as nat);
    }
}

// ===== Polling one connector =====

/// The most consecutive failed polls before a connector stops.
pub const MAX_POLL_FAILURES: u32 = 10;

/// The highest update id of a non-empty batch.
pub open spec fn max_update_id(updates: Seq<TelegramUpdate>) -> int
    decreases updates.len(),
{
    if updates.len() <= 1 {
        if updates.len() == 1 {
            updates[0].update_id as int
        } else {
            0
        }
    } else {
        let rest = max_update_id(updates.drop_last());
        let last = updates.last().update_id as int;
        if last > rest {
            last
        } else {
            rest
        }
    }
}

/// The offset that acknowledges a non-empty batch: one past its highest update id.
pub open spec fn next_offset(updates: Seq<TelegramUpdate>) -> int {
    max_update_id(updates) + 1
}

proof fn lemma_max_update_id(updates: Seq<TelegramUpdate>)
    requires
        updates.len() > 0,
    ensures
        forall|i: int| 0 <= i < updates.len() ==> (#[trigger] updates[i]).update_id <= max_update_id(
            updates,
        ),
        exists|i: int| 0 <= i < updates.len() && (#[trigger] updates[i]).update_id == max_update_id(
            updates,
        ),
    decreases updates.len(),
{
    if updates.len() > 1 {
        let init = updates.drop_last();
        lemma_max_update_id(init);
        assert forall|i: int| 0 <= i < updates.len() implies (#[trigger] updates[i]).update_id
            <= max_update_id(updates) by {
            if i < updates.len() - 1 {
                assert(updates[i] == init[i]);
            }
        }
        let k = choose|i: int| 0 <= i < init.len() && (#[trigger] init[i]).update_id == max_update_id(init);
        if updates.last().update_id as int > max_update_id(init) {
            assert(updates[updates.len() - 1].update_id == max_update_id(updates));
        } else {
            assert(updates[k] == init[k]);
        }
    } else {
        assert(updates[0].update_id == max_update_id(updates));
    }
}

/// Law: after a batch the offset lies past every update of the batch, so none of them is
/// delivered again, and it is the least such offset, so no later update is skipped.
pub proof fn law_offset_acknowledges_batch(updates: Seq<TelegramUpdate>)
    requires
        updates.len() > 0,
    ensures
        forall|i: int| 0 <= i < updates.len() ==> (#[trigger] updates[i]).update_id < next_offset(
            updates,
        ),
        exists|i: int| 0 <= i < updates.len() && (#[trigger] updates[i]).update_id + 1 == next_offset(
            updates,
        ),
{
    lemma_max_update_id(updates);
}

/// What the polling task is to do next.
#[derive(Debug)]
pub enum PollAction {
    /// Ask Telegram for the updates from the current offset.
    Poll,
    /// Wait this many seconds, then poll again.
    RetryAfter(u64),
    /// Persist this offset, then handle each update of the batch in order.
    SaveAndProcess(i64),
    /// Stop polling and release the connector's lease.
    Stop,
}

/// The polling state of one connector.
#[derive(Debug)]
pub struct Poller {
    offset: i64,
    failures: u32,
    stopped: bool,
}

impl Poller {
    /// The offset of the next poll.
    pub closed spec fn offset(&self) -> i64 {
        self.offset
    }

    /// The failed polls since the last one that succeeded.
    pub closed spec fn failures(&self) -> nat {
        self.failures as nat
    }

    /// Whether polling has stopped.
    pub closed spec fn is_stopped(&self) -> bool {
        self.stopped
    }

    #[verifier::type_invariant]
    spec fn inv(&self) -> bool {
        &&& self.failures <= MAX_POLL_FAILURES
        &&& !self.stopped ==> self.failures < MAX_POLL_FAILURES
    }

    /// Starts polling from the persisted offset.
    pub fn new(offset: i64) -> (r: Self)
        ensures
            r.offset() == offset,
            r.failures() == 0,
            !r.is_stopped(),
    {
        Poller { offset, failures: 0, stopped: false }
    }

    /// The offset of the next poll.
    pub fn current_offset(&self) -> (o: i64)
        ensures
            o == self.offset(),
    {
        self.offset
    }

    /// A poll failed: wait longer after each failure, and stop at the tenth in a row.
    pub fn on_poll_failed(&mut self) -> (a: PollAction)
        requires
            !old(self).is_stopped(),
        ensures
            final(self).offset() == old(self).offset(),
            final(self).failures() == old(self).failures() + 1,
            final(self).failures() >= MAX_POLL_FAILURES ==> final(self).is_stopped() && a is Stop,
            final(self).failures() < MAX_POLL_FAILURES ==> !final(self).is_stopped() && a
                == PollAction::RetryAfter(backoff_secs(final(self).failures() as u32) as u64),
            final(self).failures() >= 10 ==> a is Stop,
            final(self).failures() < 10 ==> a is RetryAfter,
    {
        proof {
            use_type_invariant(&*self);
        }
        let failures = self.failures + 1;
        if failures >= MAX_POLL_FAILURES {
            *self = Poller { offset: self.offset, failures, stopped: true };
            PollAction::Stop
        } else {
            *self = Poller { offset: self.offset, failures, stopped: false };
            PollAction::RetryAfter(backoff(failures))
        }
    }

    /// A poll succeeded with a batch of updates: the failures are forgotten; an empty batch
    /// polls again from the same offset, and a non-empty one moves the offset past it
    /// before it is handled.
    pub fn on_updates(&mut self, updates: &Vec<TelegramUpdate>) -> (a: PollAction)
        requires
            !old(self).is_stopped(),
            forall|i: int| 0 <= i < updates@.len() ==> (#[trigger] updates@[i]).update_id < i64::MAX,
        ensures
            final(self).failures() == 0,
            !final(self).is_stopped(),
            updates@.len() == 0 ==> final(self).offset() == old(self).offset() && a is Poll,
            updates@.len() > 0 ==> final(self).offset() == next_offset(updates@) && a
                == PollAction::SaveAndProcess(final(self).offset()),
    {
        if updates.len() == 0 {
            *self = Poller { offset: self.offset, failures: 0, stopped: false };
            return PollAction::Poll;
        }
        let mut max: i64 = updates[0].update_id;
        let mut i: usize = 1;
        while i < updates.len()
            invariant
                1 <= i <= updates@.len(),
                max == max_update_id(updates@.subrange(0, i as int)),
                forall|j: int| 0 <= j < updates@.len() ==> (#[trigger] updates@[j]).update_id < i64::MAX,
            decreases updates@.len() - i,
        {
            proof {
                let s = updates@.subrange(0, i as int + 1);
                assert(s.drop_last() =~= updates@.subrange(0, i as int));
            }
            if updates[i].update_id > max {
                max = updates[i].update_id;
            }
            i = i + 1;
        }
        proof {
            assert(updates@.subrange(0, updates@.len() as int) =~= updates@);
            lemma_max_update_id(updates@);
        }
        let offset = max + 1;
        *self = Poller { offset, failures: 0, stopped: false };
        PollAction::SaveAndProcess(offset)
    }
}

// ===== Handling one update =====

proof fn lemma_push_contains<A>(s: Seq<A>, v: A)
    ensures
        forall|x: A| #[trigger] s.push(v).contains(x) <==> (s.contains(x) || x == v),
{
    assert forall|x: A| #[trigger] s.push(v).contains(x) <==> (s.contains(x) || x == v) by {
        if s.push(v).contains(x) {
            let j = choose|j: int| 0 <= j < s.len() + 1 && s.push(v)[j] == x;
            if j < s.len() {
                assert(s[j] == x);
            }
        }
        if s.contains(x) {
            let j = choose|j: int| 0 <= j < s.len() && s[j] == x;
            assert(s.push(v)[j] == x);
        }
        if x == v {
            assert(s.push(v)[s.len() as int] == x);
        }
    }
}



/// A text message from a person: the only kind of update the bot answers.
#[derive(Debug)]
pub struct IncomingText {
    pub telegram_user_id: i64,
    pub chat_id: i64,
    pub message_id: i64,
    pub text: String,
}

/// Whether an update is a text message from a person, not from a bot.
pub open spec fn is_incoming_text(update: TelegramUpdate) -> bool {
    update.message matches Some(m) && m.text is Some && (m.from matches Some(u) && !u.is_bot)
}

/// Law: an update is handled as an incoming text exactly when it is a message, the message
/// has text, and its sender is given and is not a bot.
pub proof fn law_incoming_text_is_from_a_person(update: TelegramUpdate)
    ensures
        is_incoming_text(update) <==> (update.message is Some && update.message->0.text is Some
            && update.message->0.from is Some && !update.message->0.from->0.is_bot),
{
}

/// The text message that an update carries, or `None` for any other update (edits, channel
/// posts, photos, anonymous senders, other bots), which is skipped.
pub fn incoming_text(update: &TelegramUpdate) -> (r: Option<IncomingText>)
    ensures
        r is Some <==> is_incoming_text(*update),
        r matches Some(x) ==> (update.message matches Some(m) && x.text@ == m.text->0@
            && x.chat_id == m.chat.id && x.message_id == m.message_id && x.telegram_user_id
            == m.from->0.id),
{
    match &update.message {
        None => None,
        Some(m) => match &m.text {
            None => None,
            Some(t) => match &m.from {
                None => None,
                Some(u) => {
                    if u.is_bot {
                        None
                    } else {
                        Some(
                            IncomingText {
                                telegram_user_id: u.id,
                                chat_id: m.chat.id,
                                message_id: m.message_id,
                                text: t.clone(),
                            },
                        )
                    }
                },
            },
        },
    }
}

/// The title of the session that holds a Telegram user's conversation with an agent.
pub open spec fn spec_session_title(telegram_user_id: i64) -> Seq<char> {
    "telegram:"@ + int_decimal(telegram_user_id as int)
}

/// Law: a session title is `telegram:` followed by the user's id in decimal: a `-` for a
/// negative id, then the digits of its size, with no leading zero, that read back as it.
pub proof fn law_session_title_spells_the_id(telegram_user_id: i64)
    ensures
        ({
            let t = spec_session_title(telegram_user_id);
            let n = if telegram_user_id < 0 {
                -(telegram_user_id as int)
            } else {
                telegram_user_id as int
            };
            let k: int = if telegram_user_id < 0 {
                10
            } else {
                9
            };
            &&& t.len() > k
            &&& t.subrange(0, 9) == "telegram:"@
            &&& telegram_user_id < 0 ==> t[9] == '-'
            &&& crate::text::all_digits(t.subrange(k, t.len() as int))
            &&& crate::text::digits_value(t.subrange(k, t.len() as int)) == n
            &&& (t.len() > k + 1 ==> t[k] != '0')
        }),
{
    let t = spec_session_title(telegram_user_id);
    let p = "telegram:"@;
    assert(p.len() == 9) by {
        reveal_strlit("telegram:");
    }
    let n: nat = if telegram_user_id < 0 {
        (-(telegram_user_id as int)) as nat
    } else {
        telegram_user_id as nat
    };
    crate::text::lemma_decimal_value(n);
    crate::text::lemma_decimal_no_leading_zero(n);
    let d = crate::text::decimal(n);
    if telegram_user_id < 0 {
        assert(t =~= p + (seq!['-'] + d));
        assert(t.subrange(10, t.len() as int) =~= d);
        assert(t[9] == '-');
    } else {
        assert(t =~= p + d);
        assert(t.subrange(9, t.len() as int) =~= d);
    }
    assert(t.subrange(0, 9) =~= p);
}

/// Law: each Telegram user has a session title of their own: two users with the same title
/// are the same user.
pub proof fn law_session_title_one_to_one(a: i64, b: i64)
    requires
        spec_session_title(a) == spec_session_title(b),
    ensures
        a == b,
{
    let p = "telegram:"@;
    assert(int_decimal(a as int) =~= spec_session_title(a).subrange(p.len() as int, spec_session_title(a).len() as int));
    assert(int_decimal(b as int) =~= spec_session_title(b).subrange(p.len() as int, spec_session_title(b).len() as int));
    law_int_decimal_injective(a as int, b as int);
}

/// Whether the stored session `row` (its id, its agent and its title) belongs to this agent
/// under this title.
pub open spec fn session_matches(row: (u128, u128, Seq<char>), agent_id: u128, title: Seq<char>) -> bool {
    row.1 == agent_id && row.2 == title
}

/// Whether `found` is an answer of the lookup of an agent and a title among the stored
/// sessions: a session that matches, or none when no session matches.
pub open spec fn finds(
    sessions: Seq<(u128, u128, Seq<char>)>,
    agent_id: u128,
    title: Seq<char>,
    found: Option<u128>,
) -> bool {
    match found {
        Some(id) => exists|i: int|
            0 <= i < sessions.len() && #[trigger] session_matches(sessions[i], agent_id, title)
                && sessions[i].0 == id,
        None => forall|i: int| 0 <= i < sessions.len() ==> !#[trigger] session_matches(sessions[i], agent_id, title),
    }
}

/// Whether at most one stored session belongs to this agent under this title.
pub open spec fn at_most_one_session(sessions: Seq<(u128, u128, Seq<char>)>, agent_id: u128, title: Seq<char>) -> bool {
    forall|i: int, j: int|
        0 <= i < sessions.len() && 0 <= j < sessions.len() && #[trigger] session_matches(sessions[i], agent_id, title)
            && #[trigger] session_matches(sessions[j], agent_id, title) ==> i == j
}

/// The stored sessions after a message of a Telegram user to an agent, and the session the
/// agent answers in, given what the lookup by the user's title found: the session found
/// (`UpdateFlow::on_session_lookup`), else a new one under that title with the id that
/// storing it gives (`UpdateFlow::on_session_created`).
pub open spec fn find_or_create(
    sessions: Seq<(u128, u128, Seq<char>)>,
    agent_id: u128,
    telegram_user_id: i64,
    found: Option<u128>,
    new_id: u128,
) -> (Seq<(u128, u128, Seq<char>)>, u128) {
    match found {
        Some(id) => (sessions, id),
        None => (sessions.push((new_id, agent_id, spec_session_title(telegram_user_id))), new_id),
    }
}

/// Law: a Telegram user keeps one session per agent. When at most one session of the agent
/// has the user's title, a message creates at most one session and that stays so; the next
/// message of the same user to the same agent creates none, and the agent answers in the
/// same session.
pub proof fn law_find_or_create_idempotent(
    sessions: Seq<(u128, u128, Seq<char>)>,
    agent_id: u128,
    telegram_user_id: i64,
    first_found: Option<u128>,
    first_new_id: u128,
    second_found: Option<u128>,
    second_new_id: u128,
)
    requires
        at_most_one_session(sessions, agent_id, spec_session_title(telegram_user_id)),
        finds(sessions, agent_id, spec_session_title(telegram_user_id), first_found),
        finds(
            find_or_create(sessions, agent_id, telegram_user_id, first_found, first_new_id).0,
            agent_id,
            spec_session_title(telegram_user_id),
            second_found,
        ),
    ensures
        ({
            let (after_first, s1) = find_or_create(sessions, agent_id, telegram_user_id, first_found, first_new_id);
            let (after_second, s2) = find_or_create(
                after_first,
                agent_id,
                telegram_user_id,
                second_found,
                second_new_id,
            );
            &&& after_first.len() <= sessions.len() + 1
            &&& at_most_one_session(after_first, agent_id, spec_session_title(telegram_user_id))
            &&& after_second == after_first
            &&& s2 == s1
        }),
{
    let title = spec_session_title(telegram_user_id);
    let after_first = find_or_create(sessions, agent_id, telegram_user_id, first_found, first_new_id).0;
    match first_found {
        Some(id) => {
            let i = choose|i: int|
                0 <= i < sessions.len() && #[trigger] session_matches(sessions[i], agent_id, title)
                    && sessions[i].0 == id;
            match second_found {
                Some(id2) => {
                    let j = choose|j: int|
                        0 <= j < sessions.len() && #[trigger] session_matches(sessions[j], agent_id, title)
                            && sessions[j].0 == id2;
                    assert(i == j);
                },
                None => {
                    assert(session_matches(sessions[i], agent_id, title));
                },
            }
        },
        None => {
            let n = sessions.len() as int;
            assert(session_matches(after_first[n], agent_id, title));
            assert forall|i: int| 0 <= i < n implies after_first[i] == sessions[i] by {}
            assert forall|i: int, j: int|
                0 <= i < after_first.len() && 0 <= j < after_first.len() && #[trigger] session_matches(
                    after_first[i],
                    agent_id,
                    title,
                ) && #[trigger] session_matches(after_first[j], agent_id, title) implies i == j by {
                if i < n {
                    assert(session_matches(sessions[i], agent_id, title));
                }
                if j < n {
                    assert(session_matches(sessions[j], agent_id, title));
                }
            }
            match second_found {
                Some(id2) => {
                    let j = choose|j: int|
                        0 <= j < after_first.len() && #[trigger] session_matches(after_first[j], agent_id, title)
                            && after_first[j].0 == id2;
                    if j < n {
                        assert(session_matches(sessions[j], agent_id, title));
                    }
                },
                None => {
                    assert(session_matches(after_first[n], agent_id, title));
                },
            }
        },
    }
}

/// The title of the session that holds a Telegram user's conversation with an agent.
pub fn session_title(telegram_user_id: i64) -> (t: String)
    ensures
        t@ == spec_session_title(telegram_user_id),
{
    String::from_str("telegram:").concat(i64_to_decimal(telegram_user_id).as_str())
}

/// The reply to a sender who is not on the agent's whitelist.
pub open spec fn rejection_text() -> Seq<char> {
    "You are not authorized to use this bot."@
}

/// Whether a sender may talk to the agent.
pub open spec fn is_whitelisted(whitelist: Seq<i64>, telegram_user_id: i64) -> bool {
    whitelist.contains(telegram_user_id)
}

/// Law: a sender is on the whitelist exactly when the sender's id occurs at some position of
/// it, wherever that is.
pub proof fn law_whitelist_is_membership(whitelist: Seq<i64>, telegram_user_id: i64)
    ensures
        is_whitelisted(whitelist, telegram_user_id) <==> exists|i: int|
            0 <= i < whitelist.len() && whitelist[i] == telegram_user_id,
        forall|i: int|
            0 <= i < whitelist.len() && #[trigger] whitelist[i] == telegram_user_id ==> is_whitelisted(
                whitelist,
                telegram_user_id,
            ),
{
}

/// Law: an empty whitelist rejects every sender.
pub proof fn law_empty_whitelist_rejects_all(telegram_user_id: i64)
    ensures
        !is_whitelisted(Seq::empty(), telegram_user_id),
{
}

/// The most characters that one Telegram message may hold.
pub const MAX_MESSAGE_CHARS: usize = 4096;

/// The parts in which a reply is sent: the text itself when it fits in one message,
/// otherwise its first [`MAX_MESSAGE_CHARS`] characters and then the parts of the rest.
pub open spec fn reply_parts(text: Seq<char>) -> Seq<Seq<char>>
    decreases text.len(),
{
    if text.len() <= MAX_MESSAGE_CHARS {
        seq![text]
    } else {
        seq![text.subrange(0, MAX_MESSAGE_CHARS as int)] + reply_parts(
            text.subrange(MAX_MESSAGE_CHARS as int, text.len() as int),
        )
    }
}

/// The characters of each part.
pub open spec fn part_views(parts: Seq<String>) -> Seq<Seq<char>> {
    parts.map_values(|p: String| p@)
}

/// Law: the parts of a reply fit in a message each and, in order, make up the reply.
pub proof fn law_reply_parts(text: Seq<char>)
    ensures
        reply_parts(text).len() >= 1,
        reply_parts(text).flatten() == text,
        forall|i: int|
            0 <= i < reply_parts(text).len() ==> (#[trigger] reply_parts(text)[i]).len()
                <= MAX_MESSAGE_CHARS,
    decreases text.len(),
{
    if text.len() > MAX_MESSAGE_CHARS {
        let head = text.subrange(0, MAX_MESSAGE_CHARS as int);
        let rest = text.subrange(MAX_MESSAGE_CHARS as int, text.len() as int);
        law_reply_parts(rest);
        let ps = reply_parts(text);
        assert(ps.first() == head);
        assert(ps.drop_first() =~= reply_parts(rest));
        assert(head + rest =~= text);
        assert(ps.flatten() == ps.first() + ps.drop_first().flatten());
        assert forall|i: int| 0 <= i < ps.len() implies (#[trigger] ps[i]).len() <= MAX_MESSAGE_CHARS by {
            if i > 0 {
                assert(ps[i] == reply_parts(rest)[i - 1]);
            }
        }
    } else {
        let ps = reply_parts(text);
        assert(ps.drop_first() =~= Seq::<Seq<char>>::empty());
        assert(Seq::<Seq<char>>::empty().flatten() == Seq::<char>::empty());
        assert(ps.flatten() == ps.first() + ps.drop_first().flatten());
        assert(text + Seq::<char>::empty() =~= text);
    }
}

/// Law: a reply is cut only where Telegram's limit of 4096 characters a message makes it
/// must be: no part is longer, every part but the last holds exactly 4096 characters, the last is not empty unless the reply is, and so a
/// reply that fits in one message is sent whole.
pub proof fn law_reply_parts_are_full(text: Seq<char>)
    ensures
        forall|i: int|
            0 <= i < reply_parts(text).len() - 1 ==> (#[trigger] reply_parts(text)[i]).len() == 4096,
        forall|i: int| 0 <= i < reply_parts(text).len() ==> (#[trigger] reply_parts(text)[i]).len() <= 4096,
        text.len() > 0 ==> reply_parts(text).last().len() > 0,
        text.len() <= 4096 ==> reply_parts(text) == seq![text],
    decreases text.len(),
{
    if text.len() > MAX_MESSAGE_CHARS {
        let rest = text.subrange(MAX_MESSAGE_CHARS as int, text.len() as int);
        law_reply_parts_are_full(rest);
        law_reply_parts(rest);
        let ps = reply_parts(text);
        assert(ps.drop_first() =~= reply_parts(rest));
        assert forall|i: int| 0 <= i < ps.len() - 1 implies (#[trigger] ps[i]).len() == MAX_MESSAGE_CHARS by {
            if i > 0 {
                assert(ps[i] == reply_parts(rest)[i - 1]);
            }
        }
        assert(ps.last() == reply_parts(rest).last());
    }
    law_reply_parts(text);
}

/// Splits a reply into the parts in which it is sent.
pub fn split_reply(text: &str) -> (parts: Vec<String>)
    ensures
        part_views(parts@) == reply_parts(text@),
{
    let cs = chars_of(text);
    let n = cs.len();
    let mut out: Vec<String> = Vec::new();
    let mut start: usize = 0;
    proof {
        assert(cs@.subrange(0, n as int) =~= text@);
        assert(part_views(out@) + reply_parts(text@) =~= reply_parts(text@));
    }
    loop
        invariant
            cs@ == text@,
            n == cs@.len(),
            start <= n,
            part_views(out@) + reply_parts(cs@.subrange(start as int, n as int)) == reply_parts(text@),
        decreases n - start,
    {
        let ghost rest = cs@.subrange(start as int, n as int);
        let ghost before = out@;
        if n - start <= MAX_MESSAGE_CHARS {
            let part = string_from_range(cs.as_slice(), start, n);
            out.push(part);
            proof {
                assert(part_views(out@) =~= part_views(before).push(rest));
                assert(reply_parts(rest) == seq![rest]);
                assert(part_views(before) + seq![rest] =~= part_views(before).push(rest));
            }
            return out;
        }
        let part = string_from_range(cs.as_slice(), start, start + MAX_MESSAGE_CHARS);
        out.push(part);
        proof {
            let head = rest.subrange(0, MAX_MESSAGE_CHARS as int);
            let tail = rest.subrange(MAX_MESSAGE_CHARS as int, rest.len() as int);
            assert(head =~= cs@.subrange(start as int, start + MAX_MESSAGE_CHARS));
            assert(tail =~= cs@.subrange(start + MAX_MESSAGE_CHARS, n as int));
            assert(reply_parts(rest) == seq![head] + reply_parts(tail));
            assert(part_views(out@) =~= part_views(before).push(head));
            assert(part_views(before) + (seq![head] + reply_parts(tail)) =~= part_views(before).push(
                head,
            ) + reply_parts(tail));
        }
        start = start + MAX_MESSAGE_CHARS;
    }
}

/// What the driver of an update is to do next. A failure of any step but the rejection,
/// the typing indicator and a lost reply ends the update with that error.
#[derive(Debug)]
pub enum UpdateStep {
    /// Load the whitelist of the agent.
    FetchWhitelist { agent_id: u128 },
    /// Tell the sender that they may not use the bot; a failure to send is ignored.
    Reject { chat_id: i64, text: String },
    /// Record the message as processed, reporting whether it was new.
    RecordProcessed { connector_id: u128, message_id: i64 },
    /// Look for the agent's session with this title.
    FindSession { agent_id: u128, title: String },
    /// Create a session of the agent for the user, with this title.
    CreateSession { agent_id: u128, user_id: u128, title: String },
    /// Show "typing…" in the chat and keep it up while the agent answers the text in the
    /// session; report the answer.
    RunAgent { chat_id: i64, session_id: u128, text: String },
    /// Send the answer to the chat as consecutive messages, one per part, in order.
    Reply { chat_id: i64, parts: Vec<String> },
    /// Nothing is left to do for the update.
    Done,
}

/// Where the handling of an update stands.
#[derive(Clone, Copy, PartialEq, Eq, Debug)]
pub enum UpdateStage {
    AwaitWhitelist,
    AwaitRecord,
    AwaitSession,
    AwaitCreatedSession,
    AwaitAnswer,
    Finished,
}

/// The handling of one text message.
#[derive(Debug)]
pub struct UpdateFlow {
    incoming: IncomingText,
    connector_id: u128,
    agent_id: u128,
    user_id: u128,
    stage: UpdateStage,
}

impl UpdateFlow {
    pub closed spec fn stage(&self) -> UpdateStage {
        self.stage
    }

    /// The sender of the message.
    pub closed spec fn sender(&self) -> i64 {
        self.incoming.telegram_user_id
    }

    pub closed spec fn chat_id(&self) -> i64 {
        self.incoming.chat_id
    }

    pub closed spec fn message_id(&self) -> i64 {
        self.incoming.message_id
    }

    pub closed spec fn text(&self) -> Seq<char> {
        self.incoming.text@
    }

    pub closed spec fn connector_id(&self) -> u128 {
        self.connector_id
    }

    pub closed spec fn agent_id(&self) -> u128 {
        self.agent_id
    }

    pub closed spec fn user_id(&self) -> u128 {
        self.user_id
    }

    /// Starts handling an update of a connector of an agent, whose sessions belong to
    /// `user_id`: only a text message from a person is handled, beginning with the whitelist.
    pub fn start(update: &TelegramUpdate, connector_id: u128, agent_id: u128, user_id: u128) -> (r: (
        Option<UpdateFlow>,
        UpdateStep,
    ))
        ensures
            !is_incoming_text(*update) ==> r.0 is None && r.1 is Done,
            is_incoming_text(*update) ==> (r.0 matches Some(f) && f.stage()
                == UpdateStage::AwaitWhitelist && (update.message matches Some(m) && f.text()
                == m.text->0@ && f.chat_id() == m.chat.id && f.message_id() == m.message_id
                && f.sender() == m.from->0.id) && f.connector_id() == connector_id && f.agent_id()
                == agent_id && f.user_id() == user_id) && r.1 == (UpdateStep::FetchWhitelist {
                agent_id,
            }),
    {
        match incoming_text(update) {
            None => (None, UpdateStep::Done),
            Some(incoming) => (
                Some(
                    UpdateFlow {
                        incoming,
                        connector_id,
                        agent_id,
                        user_id,
                        stage: UpdateStage::AwaitWhitelist,
                    },
                ),
                UpdateStep::FetchWhitelist { agent_id },
            ),
        }
    }

    /// The agent's whitelist is loaded: a sender who is not on it is told so and nothing
    /// else happens; otherwise the message is recorded as processed first.
    pub fn on_whitelist(&mut self, whitelist: &Vec<i64>) -> (r: UpdateStep)
        requires
            old(self).stage() == UpdateStage::AwaitWhitelist,
        ensures
            final(self).sender() == old(self).sender() && final(self).chat_id() == old(self).chat_id()
                && final(self).message_id() == old(self).message_id() && final(self).text() == old(self).text() && final(self).connector_id() == old(self).connector_id() && final(self).agent_id() == old(self).agent_id() && final(self).user_id() == old(self).user_id(),
            !is_whitelisted(whitelist@, old(self).sender()) ==> final(self).stage()
                == UpdateStage::Finished && (r matches UpdateStep::Reject { chat_id, text }
                && chat_id == old(self).chat_id() && text@ == rejection_text()),
            is_whitelisted(whitelist@, old(self).sender()) ==> final(self).stage()
                == UpdateStage::AwaitRecord && r == (UpdateStep::RecordProcessed {
                connector_id: old(self).connector_id(),
                message_id: old(self).message_id(),
            }),
            forall|i: int|
                0 <= i < whitelist@.len() && #[trigger] whitelist@[i] == old(self).sender() ==> r
                    == (UpdateStep::RecordProcessed {
                    connector_id: old(self).connector_id(),
                    message_id: old(self).message_id(),
                }),
            (forall|i: int| 0 <= i < whitelist@.len() ==> #[trigger] whitelist@[i] != old(self).sender())
                ==> r is Reject,
            (forall|i: int| 0 <= i < whitelist@.len() ==> #[trigger] whitelist@[i] != old(self).sender())
                ==> (r matches UpdateStep::Reject { text, .. } && text@
                == "You are not authorized to use this bot."@),
    {
        let mut found = false;
        let mut i: usize = 0;
        while i < whitelist.len()
            invariant
                0 <= i <= whitelist@.len(),
                found <==> whitelist@.subrange(0, i as int).contains(self.incoming.telegram_user_id),
            decreases whitelist@.len() - i,
        {
            proof {
                let s = whitelist@.subrange(0, i as int + 1);
                assert(s =~= whitelist@.subrange(0, i as int).push(whitelist@[i as int]));
                lemma_push_contains(whitelist@.subrange(0, i as int), whitelist@[i as int]);
            }
            if whitelist[i] == self.incoming.telegram_user_id {
                found = true;
            }
            i = i + 1;
        }
        proof {
            assert(whitelist@.subrange(0, whitelist@.len() as int) =~= whitelist@);
        }
        if found {
            self.stage = UpdateStage::AwaitRecord;
            UpdateStep::RecordProcessed {
                connector_id: self.connector_id,
                message_id: self.incoming.message_id,
            }
        } else {
            self.stage = UpdateStage::Finished;
            UpdateStep::Reject {
                chat_id: self.incoming.chat_id,
                text: String::from_str("You are not authorized to use this bot."),
            }
        }
    }

    /// The message is recorded: one handled before is skipped; a new one goes to the
    /// sender's session, looked up by its title.
    pub fn on_recorded(&mut self, is_new: bool) -> (r: UpdateStep)
        requires
            old(self).stage() == UpdateStage::AwaitRecord,
        ensures
            final(self).sender() == old(self).sender() && final(self).chat_id() == old(self).chat_id()
                && final(self).text() == old(self).text() && final(self).agent_id() == old(self).agent_id() && final(self).user_id() == old(self).user_id(),
            !is_new ==> final(self).stage() == UpdateStage::Finished && r is Done,
            is_new ==> final(self).stage() == UpdateStage::AwaitSession && (r matches UpdateStep::FindSession {
                agent_id,
                title,
            } && agent_id == old(self).agent_id() && title@ == spec_session_title(old(self).sender())),
    {
        if is_new {
            self.stage = UpdateStage::AwaitSession;
            UpdateStep::FindSession {
                agent_id: self.agent_id,
                title: session_title(self.incoming.telegram_user_id),
            }
        } else {
            self.stage = UpdateStage::Finished;
            UpdateStep::Done
        }
    }

    /// The lookup of the sender's session is done: the agent answers in the session found,
    /// or a session is created for the sender first.
    pub fn on_session_lookup(&mut self, found: Option<u128>) -> (r: UpdateStep)
        requires
            old(self).stage() == UpdateStage::AwaitSession,
        ensures
            final(self).chat_id() == old(self).chat_id() && final(self).text() == old(self).text()
                && final(self).agent_id() == old(self).agent_id() && final(self).user_id() == old(self).user_id() && final(self).sender() == old(self).sender(),
            found matches Some(session_id) ==> final(self).stage() == UpdateStage::AwaitAnswer && (
            r matches UpdateStep::RunAgent { chat_id, session_id: s, text } && chat_id == old(self).chat_id() && s == session_id && text@ == old(self).text()),
            found is None ==> final(self).stage() == UpdateStage::AwaitCreatedSession && (
            r matches UpdateStep::CreateSession { agent_id, user_id, title } && agent_id == old(self).agent_id() && user_id == old(self).user_id() && title@ == spec_session_title(
                old(self).sender(),
            )),
    {
        match found {
            Some(session_id) => {
                self.stage = UpdateStage::AwaitAnswer;
                UpdateStep::RunAgent {
                    chat_id: self.incoming.chat_id,
                    session_id,
                    text: self.incoming.text.clone(),
                }
            },
            None => {
                self.stage = UpdateStage::AwaitCreatedSession;
                UpdateStep::CreateSession {
                    agent_id: self.agent_id,
                    user_id: self.user_id,
                    title: session_title(self.incoming.telegram_user_id),
                }
            },
        }
    }

    /// The sender's session was created: the agent answers in it.
    pub fn on_session_created(&mut self, session_id: u128) -> (r: UpdateStep)
        requires
            old(self).stage() == UpdateStage::AwaitCreatedSession,
        ensures
            final(self).chat_id() == old(self).chat_id() && final(self).text() == old(self).text(),
            final(self).stage() == UpdateStage::AwaitAnswer,
            r matches UpdateStep::RunAgent { chat_id, session_id: s, text } && chat_id == old(self).chat_id() && s == session_id && text@ == old(self).text(),
    {
        self.stage = UpdateStage::AwaitAnswer;
        UpdateStep::RunAgent {
            chat_id: self.incoming.chat_id,
            session_id,
            text: self.incoming.text.clone(),
        }
    }

    /// The agent answered: the answer goes back to the chat in parts of at most
    /// [`MAX_MESSAGE_CHARS`] characters, which in order make up the answer.
    pub fn on_answer(&mut self, answer: String) -> (r: UpdateStep)
        requires
            old(self).stage() == UpdateStage::AwaitAnswer,
        ensures
            final(self).stage() == UpdateStage::Finished,
            r matches UpdateStep::Reply { chat_id, parts } && chat_id == old(self).chat_id()
                && part_views(parts@) == reply_parts(answer@) && part_views(parts@).flatten()
                == answer@ && forall|i: int|
                0 <= i < parts@.len() ==> (#[trigger] parts@[i])@.len() <= MAX_MESSAGE_CHARS,
    {
        self.stage = UpdateStage::Finished;
        let parts = split_reply(answer.as_str());
        proof {
            law_reply_parts(answer@);
            assert forall|i: int| 0 <= i < parts@.len() implies (#[trigger] parts@[i])@.len()
                <= MAX_MESSAGE_CHARS by {
                assert(part_views(parts@)[i] == parts@[i]@);
            }
        }
        UpdateStep::Reply { chat_id: self.incoming.chat_id, parts }
    }
}

// ===== The set of running connectors =====

/// What the supervisor is to do about a connector it has claimed.
#[derive(Debug)]
pub enum ClaimAction {
    /// Its token could not be had: release its lease.
    Release(u128),
    /// Run its polling task with the plaintext token.
    Spawn { connector_id: u128, token: String },
}

/// The connectors whose polling tasks run in this process, each once.
#[derive(Debug)]
pub struct ActiveConnectors {
    ids: IdSet,
}

impl ActiveConnectors {
    /// The running connectors.
    pub closed spec fn view(&self) -> Set<u128> {
        self.ids@
    }

    /// No connector runs yet.
    pub fn new() -> (r: Self)
        ensures
            r@ == Set::<u128>::empty(),
    {
        ActiveConnectors { ids: IdSet::new() }
    }

    /// How many connectors run.
    pub fn len(&self) -> (n: usize)
        ensures
            n == self@.len(),
    {
        self.ids.len()
    }

    /// Whether a claimable connector should be claimed: not when it already runs here.
    pub fn should_claim(&self, connector_id: u128) -> (b: bool)
        ensures
            b == !self@.contains(connector_id),
    {
        !self.ids.contains(connector_id)
    }

    /// A claimed connector's token is known, or failed to decrypt: its task starts and it
    /// counts as running, or its lease is released.
    pub fn on_token(&mut self, connector_id: u128, token: Result<String, AppError>) -> (a: ClaimAction)
        requires
            !old(self)@.contains(connector_id),
        ensures
            match token {
                Ok(t) => final(self)@ == old(self)@.insert(connector_id) && (a matches ClaimAction::Spawn {
                    connector_id: c,
                    token: s,
                } && c == connector_id && s@ == t@),
                Err(_) => final(self)@ == old(self)@ && a == ClaimAction::Release(connector_id),
            },
    {
        match token {
            Ok(t) => {
                self.ids.insert(connector_id);
                ClaimAction::Spawn { connector_id, token: t }
            },
            Err(_) => ClaimAction::Release(connector_id),
        }
    }

    /// A connector's task ended: it no longer runs.
    pub fn on_task_finished(&mut self, connector_id: u128)
        ensures
            final(self)@ == old(self)@.remove(connector_id),
    {
        self.ids.remove(connector_id);
    }

    /// A task panicked, and which connector it ran is not known: none counts as running, so
    /// that all can be claimed again.
    pub fn on_task_panicked(&mut self)
        ensures
            final(self)@ == Set::<u128>::empty(),
    {
        self.ids.clear();
    }
}

/// Law: once a connector's task is started the supervisor does not claim it again, and once
/// the task has ended it may.
pub proof fn law_started_connector_not_reclaimed(active: Set<u128>, connector_id: u128)
    ensures
        active.insert(connector_id).contains(connector_id),
        !active.insert(connector_id).remove(connector_id).contains(connector_id),
{
}

} // verus!
