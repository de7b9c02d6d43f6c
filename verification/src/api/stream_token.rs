//! Short-lived stream tokens for SSE authentication.
//!
//! This module provides a way to exchange long-lived API keys for short-lived
//! stream tokens that can be safely used in query strings for SSE connections.
//!
//! The problem: EventSource (SSE) cannot send custom headers, so the API key
//! would need to be passed in the query string. But query strings can leak via:
//! - Browser history
//! - Referrer headers
//! - Server logs
//!
//! The solution: Exchange the API key for a short-lived token that:
//! - Is only valid for 30 seconds
//! - Can only be used once
//! - Is stored in memory (not persisted)

use vstd::prelude::*;

use crate::text::same_text;

verus! {

/// Token validity duration in nanoseconds (30 seconds is enough to establish SSE connection).
pub const TOKEN_TTL: u64 = 30_000_000_000;

/// The length of a token.
pub const TOKEN_LEN: usize = 32;

/// A short-lived stream token. Times are nanoseconds of a clock that does not go back.
#[derive(Debug, Clone, Copy, PartialEq, Eq, Structural)]
pub struct StreamToken {
    /// When the token expires.
    pub expires_at: u64,
    /// Whether the token has been used.
    pub used: bool,
}

/// Tokens by their texts.
pub type Tokens = Map<Seq<char>, StreamToken>;

/// The tokens that have not expired.
pub open spec fn unexpired(tokens: Tokens, now: u64) -> Tokens {
    Map::new(
        |text: Seq<char>| tokens.dom().contains(text) && tokens[text].expires_at > now,
        |text: Seq<char>| tokens[text],
    )
}

/// The tokens after one was added.
pub open spec fn generated(tokens: Tokens, text: Seq<char>, now: u64) -> Tokens {
    unexpired(tokens, now).insert(
        text,
        StreamToken { expires_at: (now + TOKEN_TTL) as u64, used: false },
    )
}

/// The text is that of a token that has neither expired nor been used.
pub open spec fn is_valid(tokens: Tokens, text: Seq<char>, now: u64) -> bool {
    tokens.dom().contains(text) && tokens[text].expires_at > now && !tokens[text].used
}

/// The tokens after one was presented.
pub open spec fn presented(tokens: Tokens, text: Seq<char>, now: u64) -> Tokens {
    if is_valid(tokens, text, now) {
        unexpired(tokens, now).insert(text, StreamToken { used: true, ..tokens[text] })
    } else {
        unexpired(tokens, now)
    }
}

// --- Laws ---

/// A new token is valid until it expires, and no longer.
pub proof fn new_token_is_valid_until_it_expires(
    tokens: Tokens,
    text: Seq<char>,
    now: u64,
    later: u64,
)
    requires
        now + TOKEN_TTL <= u64::MAX,
    ensures
        is_valid(generated(tokens, text, now), text, later) == (later < now + TOKEN_TTL),
{
}

/// A token can only be used once: after it was accepted it is never valid again.
pub proof fn token_is_single_use(tokens: Tokens, text: Seq<char>, now: u64, later: u64)
    ensures
        !is_valid(presented(tokens, text, now), text, now),
        is_valid(tokens, text, now) ==> !is_valid(presented(tokens, text, now), text, later),
{
}

/// A token that is not valid at any time, being used or unknown, stays so whatever else is
/// presented or generated.
pub proof fn invalid_token_stays_invalid(
    tokens: Tokens,
    text: Seq<char>,
    other: Seq<char>,
    now: u64,
    later: u64,
)
    requires
        !tokens.dom().contains(text) || tokens[text].used,
    ensures
        !is_valid(presented(tokens, other, now), text, later),
        other != text ==> !is_valid(generated(tokens, other, now), text, later),
{
}

/// Using one token does not invalidate another, and neither does generating one.
pub proof fn tokens_are_independent(
    tokens: Tokens,
    text: Seq<char>,
    other: Seq<char>,
    now: u64,
    later: u64,
)
    requires
        text != other,
        now <= later,
    ensures
        is_valid(presented(tokens, other, now), text, later) == is_valid(tokens, text, later),
        is_valid(generated(tokens, other, now), text, later) == is_valid(tokens, text, later),
{
}

// --- The history of a store ---

/// A call of a store, with the text that was drawn or shown.
pub enum TokenCall {
    /// A token was generated.
    Generate { text: Seq<char>, now: u64 },
    /// A token was presented.
    Present { text: Seq<char>, now: u64 },
}

impl TokenCall {
    /// When the store was called.
    pub open spec fn time(self) -> u64 {
        match self {
            TokenCall::Generate { now, .. } => now,
            TokenCall::Present { now, .. } => now,
        }
    }

    /// The text of the token.
    pub open spec fn text(self) -> Seq<char> {
        match self {
            TokenCall::Generate { text, .. } => text,
            TokenCall::Present { text, .. } => text,
        }
    }
}

/// The clock does not go back from call to call, nor run out.
pub open spec fn is_history(calls: Seq<TokenCall>) -> bool {
    &&& forall|i: int, j: int|
        0 <= i <= j < calls.len() ==> (#[trigger] calls[i]).time() <= (#[trigger] calls[j]).time()
    &&& forall|i: int|
        0 <= i < calls.len() && (#[trigger] calls[i]) is Generate ==> calls[i].time() + TOKEN_TTL
            <= u64::MAX
}

/// The tokens of a new store after the first `n` of the calls.
pub open spec fn tokens_after(calls: Seq<TokenCall>, n: int) -> Tokens
    decreases n,
{
    if n <= 0 {
        Map::empty()
    } else {
        match calls[n - 1] {
            TokenCall::Generate { text, now } => generated(tokens_after(calls, n - 1), text, now),
            TokenCall::Present { text, now } => presented(tokens_after(calls, n - 1), text, now),
        }
    }
}

/// The call generates a token with the given text.
pub open spec fn draws(call: TokenCall, text: Seq<char>) -> bool {
    call is Generate && call.text() == text
}

/// The call with the given place presents the given text, and the store accepts it.
pub open spec fn accepts(calls: Seq<TokenCall>, i: int, text: Seq<char>) -> bool {
    &&& calls[i] is Present
    &&& calls[i].text() == text
    &&& is_valid(tokens_after(calls, i), text, calls[i].time())
}

/// The place of the last of the first `n` calls that generates the text, and -1 without one.
pub open spec fn last_draw(calls: Seq<TokenCall>, n: int, text: Seq<char>) -> int
    decreases n,
{
    if n <= 0 {
        -1
    } else if draws(calls[n - 1], text) {
        n - 1
    } else {
        last_draw(calls, n - 1, text)
    }
}

/// The text was accepted by a call after the call `g` and before the call `n`.
pub open spec fn is_used_between(calls: Seq<TokenCall>, g: int, n: int, text: Seq<char>) -> bool {
    exists|j: int| g < j < n && #[trigger] accepts(calls, j, text)
}

proof fn last_draw_is_last(calls: Seq<TokenCall>, n: int, text: Seq<char>)
    requires
        0 <= n <= calls.len(),
    ensures
        -1 <= last_draw(calls, n, text) < n || n == 0 && last_draw(calls, n, text) == -1,
        last_draw(calls, n, text) >= 0 ==> draws(calls[last_draw(calls, n, text)], text),
        forall|j: int| last_draw(calls, n, text) < j < n ==> !draws(#[trigger] calls[j], text),
    decreases n,
{
    if n > 0 {
        last_draw_is_last(calls, n - 1, text);
    }
}

proof fn tokens_tell_their_history(calls: Seq<TokenCall>, n: int, text: Seq<char>)
    requires
        is_history(calls),
        0 <= n <= calls.len(),
    ensures
        ({
            let tokens = tokens_after(calls, n);
            let g = last_draw(calls, n, text);
            &&& tokens.dom().contains(text) ==> g >= 0 && tokens[text].expires_at
                == calls[g].time() + TOKEN_TTL && tokens[text].used == is_used_between(
                calls,
                g,
                n,
                text,
            )
            &&& g >= 0 && calls[n - 1].time() < calls[g].time() + TOKEN_TTL
                ==> tokens.dom().contains(text)
        }),
    decreases n,
{
    if n > 0 {
        tokens_tell_their_history(calls, n - 1, text);
        last_draw_is_last(calls, n - 1, text);
        let before = tokens_after(calls, n - 1);
        let tokens = tokens_after(calls, n);
        let g = last_draw(calls, n, text);
        if draws(calls[n - 1], text) {
            assert(!is_used_between(calls, g, n, text));
        } else {
            if n > 1 {
                assert(calls[n - 2].time() <= calls[n - 1].time());
            }
            if accepts(calls, n - 1, text) {
                assert(is_used_between(calls, g, n, text));
            } else if is_used_between(calls, g, n, text) {
                let j = choose|j: int| g < j < n && #[trigger] accepts(calls, j, text);
                assert(g < j < n - 1);
                assert(is_used_between(calls, g, n - 1, text));
            }
            if is_used_between(calls, g, n - 1, text) {
                let j = choose|j: int| g < j < n - 1 && #[trigger] accepts(calls, j, text);
                assert(g < j < n);
                assert(is_used_between(calls, g, n, text));
            }
        }
    }
}

/// Over any history of calls, a text is accepted if and only if it was generated, the last time
/// less than 30 seconds before, and was not accepted since.
pub proof fn accepted_if_fresh_and_unused(calls: Seq<TokenCall>, i: int, text: Seq<char>)
    requires
        is_history(calls),
        0 <= i < calls.len(),
        calls[i] is Present,
        calls[i].text() == text,
    ensures
        ({
            let g = last_draw(calls, i, text);
            accepts(calls, i, text) <==> g >= 0 && calls[i].time() < calls[g].time() + TOKEN_TTL
                && !is_used_between(calls, g, i, text)
        }),
{
    tokens_tell_their_history(calls, i, text);
    last_draw_is_last(calls, i, text);
    if i > 0 {
        assert(calls[i - 1].time() <= calls[i].time());
    }
}

/// No text is generated twice.
pub open spec fn has_distinct_draws(calls: Seq<TokenCall>) -> bool {
    forall|i: int, j: int|
        0 <= i < j < calls.len() && (#[trigger] calls[i]) is Generate && (#[trigger] calls[j])
            is Generate ==> calls[i].text() != calls[j].text()
}

/// A call before the call `n` generates the text, less than 30 seconds before the given time.
pub open spec fn is_fresh(calls: Seq<TokenCall>, n: int, text: Seq<char>, now: u64) -> bool {
    exists|g: int|
        0 <= g < n && draws(#[trigger] calls[g], text) && now < calls[g].time() + TOKEN_TTL
}

/// Over any history of calls in which no text is drawn twice, a token is accepted if and only if
/// it was generated less than 30 seconds before and was never accepted before. So a fresh token is
/// accepted exactly once, and a text that was never generated is not accepted.
pub proof fn token_is_accepted_once(calls: Seq<TokenCall>, i: int, text: Seq<char>)
    requires
        is_history(calls),
        has_distinct_draws(calls),
        0 <= i < calls.len(),
        calls[i] is Present,
        calls[i].text() == text,
    ensures
        accepts(calls, i, text) <==> is_fresh(calls, i, text, calls[i].time())
            && !is_used_between(calls, -1, i, text),
{
    let now = calls[i].time();
    let g = last_draw(calls, i, text);
    accepted_if_fresh_and_unused(calls, i, text);
    last_draw_is_last(calls, i, text);
    if is_fresh(calls, i, text, now) {
        let h = choose|h: int|
            0 <= h < i && draws(#[trigger] calls[h], text) && now < calls[h].time() + TOKEN_TTL;
        assert(h == g);
    }
    if is_used_between(calls, -1, i, text) {
        let j = choose|j: int| -1 < j < i && #[trigger] accepts(calls, j, text);
        accepted_if_fresh_and_unused(calls, j, text);
        last_draw_is_last(calls, j, text);
        let h = last_draw(calls, j, text);
        assert(draws(calls[h], text));
        assert(h == g);
        assert(is_used_between(calls, g, i, text));
    }
    if g >= 0 && is_used_between(calls, g, i, text) {
        let j = choose|j: int| g < j < i && #[trigger] accepts(calls, j, text);
        assert(is_used_between(calls, -1, i, text));
    }
}

/// No history of calls accepts a token twice, unless its text was drawn again in between.
pub proof fn token_is_not_accepted_twice(calls: Seq<TokenCall>, i: int, j: int, text: Seq<char>)
    requires
        is_history(calls),
        0 <= i < j < calls.len(),
        accepts(calls, i, text),
        accepts(calls, j, text),
    ensures
        exists|g: int| i < g < j && draws(#[trigger] calls[g], text),
{
    accepted_if_fresh_and_unused(calls, j, text);
    last_draw_is_last(calls, j, text);
    let g = last_draw(calls, j, text);
    if g < i {
        assert(is_used_between(calls, g, j, text));
    }
    assert(draws(calls[g], text));
}

// --- The store ---

/// A token in the store.
#[derive(Debug)]
struct Entry {
    text: String,
    token: StreamToken,
}

/// The tokens of a list of entries.
spec fn tokens_of(entries: Seq<Entry>) -> Tokens
    decreases entries.len(),
{
    if entries.len() == 0 {
        Map::empty()
    } else {
        tokens_of(entries.drop_last()).insert(entries.last().text@, entries.last().token)
    }
}

/// No two entries have the same text.
spec fn all_different(entries: Seq<Entry>) -> bool {
    forall|i: int, j: int|
        0 <= i < j < entries.len() ==> (#[trigger] entries[i]).text@ != (
        #[trigger] entries[j]).text@
}

proof fn tokens_of_entries(entries: Seq<Entry>)
    requires
        all_different(entries),
    ensures
        forall|i: int|
            0 <= i < entries.len() ==> tokens_of(entries).dom().contains(
                (#[trigger] entries[i]).text@,
            ) && tokens_of(entries)[entries[i].text@] == entries[i].token,
        forall|text: Seq<char>|
            #![trigger tokens_of(entries).dom().contains(text)]
            tokens_of(entries).dom().contains(text) ==> exists|i: int|
                0 <= i < entries.len() && (#[trigger] entries[i]).text@ == text,
    decreases entries.len(),
{
    if entries.len() > 0 {
        let shorter = entries.drop_last();
        assert forall|i: int, j: int| 0 <= i < j < shorter.len() implies (
        #[trigger] shorter[i]).text@ != (#[trigger] shorter[j]).text@ by {
            assert(entries[i].text@ != entries[j].text@);
        }
        tokens_of_entries(shorter);
        assert forall|i: int| 0 <= i < entries.len() implies tokens_of(entries).dom().contains(
            (#[trigger] entries[i]).text@,
        ) && tokens_of(entries)[entries[i].text@] == entries[i].token by {
            if i < shorter.len() {
                assert(shorter[i] == entries[i]);
                assert(entries[i].text@ != entries[entries.len() - 1].text@);
            }
        }
        assert forall|text: Seq<char>|
            #![trigger tokens_of(entries).dom().contains(text)]
            tokens_of(entries).dom().contains(text) implies exists|i: int|
            0 <= i < entries.len() && (#[trigger] entries[i]).text@ == text by {
            if text == entries.last().text@ {
                assert(entries[entries.len() - 1].text@ == text);
            } else {
                assert(tokens_of(shorter).dom().contains(text));
                let i = choose|i: int|
                    0 <= i < shorter.len() && (#[trigger] shorter[i]).text@ == text;
                assert(entries[i] == shorter[i]);
            }
        }
    }
}

/// In-memory store for stream tokens.
#[derive(Debug)]
pub struct StreamTokenStore {
    entries: Vec<Entry>,
}

impl View for StreamTokenStore {
    type V = Tokens;

    closed spec fn view(&self) -> Tokens {
        tokens_of(self.entries@)
    }
}

/// An ASCII letter or digit.
pub open spec fn is_alphanumeric(c: char) -> bool {
    'A' <= c <= 'Z' || 'a' <= c <= 'z' || '0' <= c <= '9'
}

/// The text of a token: ASCII letters and digits, as many as a token has.
pub open spec fn is_token_text(s: Seq<char>) -> bool {
    s.len() == TOKEN_LEN && forall|i: int| 0 <= i < s.len() ==> is_alphanumeric(#[trigger] s[i])
}

/// `rand::Rng::sample` of `rand::distributions::Alphanumeric` on `rand::thread_rng`: one random
/// character. Which one is chance; it is an ASCII letter or digit.
#[verifier::external_body]
fn random_alphanumeric() -> (r: char)
    ensures
        is_alphanumeric(r),
{
    char::from(rand::Rng::sample(&mut rand::thread_rng(), rand::distributions::Alphanumeric))
}

fn random_text() -> (r: String)
    ensures
        is_token_text(r@),
{
    let mut text: String = String::new();
    let mut i: usize = 0;
    while i < TOKEN_LEN
        invariant
            i <= TOKEN_LEN,
            text@.len() == i,
            forall|j: int| 0 <= j < i ==> is_alphanumeric(#[trigger] text@[j]),
        decreases TOKEN_LEN - i,
    {
        text.push(random_alphanumeric());
        i += 1;
    }
    text
}

impl Default for StreamTokenStore {
    fn default() -> (r: StreamTokenStore)
        ensures
            r@ == Map::<Seq<char>, StreamToken>::empty(),
    {
        StreamTokenStore::new()
    }
}

impl StreamTokenStore {
    #[verifier::type_invariant]
    spec fn has_different_texts(self) -> bool {
        all_different(self.entries@)
    }

    /// A store without tokens.
    pub fn new() -> (r: StreamTokenStore)
        ensures
            r@ == Map::<Seq<char>, StreamToken>::empty(),
    {
        StreamTokenStore { entries: Vec::new() }
    }

    /// The entries that have not expired, without the one that has the given text.
    fn others(&self, text: &str, now: u64) -> (r: Vec<Entry>)
        ensures
            all_different(r@),
            forall|i: int| 0 <= i < r@.len() ==> (#[trigger] r@[i]).text@ != text@,
            tokens_of(r@) == unexpired(self@, now).remove(text@),
    {
        proof {
            use_type_invariant(self);
            tokens_of_entries(self.entries@);
        }
        let mut kept: Vec<Entry> = Vec::new();
        let mut i: usize = 0;
        while i < self.entries.len()
            invariant
                i <= self.entries@.len(),
                all_different(self.entries@),
                all_different(kept@),
                forall|k: int| 0 <= k < kept@.len() ==> (#[trigger] kept@[k]).text@ != text@,
                forall|k: int|
                    0 <= k < kept@.len() ==> exists|j: int|
                        0 <= j < i && (#[trigger] kept@[k]).text@ == (
                        #[trigger] self.entries@[j]).text@ && kept@[k].token
                            == self.entries@[j].token && kept@[k].token.expires_at > now,
                forall|j: int|
                    0 <= j < i && (#[trigger] self.entries@[j]).text@ != text@
                        && self.entries@[j].token.expires_at > now ==> exists|k: int|
                        0 <= k < kept@.len() && (#[trigger] kept@[k]).text@
                            == self.entries@[j].text@,
            decreases self.entries.len() - i,
        {
            let entry = &self.entries[i];
            let ghost before = kept@;
            if entry.token.expires_at > now && !same_text(entry.text.as_str(), text) {
                kept.push(Entry { text: entry.text.clone(), token: entry.token });
                assert(kept@[before.len() as int].text@ == self.entries@[i as int].text@);
                assert forall|k: int| 0 <= k < kept@.len() implies exists|j: int|
                    0 <= j < i + 1 && (#[trigger] kept@[k]).text@ == (
                    #[trigger] self.entries@[j]).text@ && kept@[k].token == self.entries@[j].token
                        && kept@[k].token.expires_at > now by {
                    if k < before.len() {
                        assert(kept@[k] == before[k]);
                    }
                }
                assert forall|j: int|
                    0 <= j < i + 1 && (#[trigger] self.entries@[j]).text@ != text@
                        && self.entries@[j].token.expires_at > now implies exists|k: int|
                    0 <= k < kept@.len() && (#[trigger] kept@[k]).text@
                        == self.entries@[j].text@ by {
                    if j < i {
                        let k = choose|k: int|
                            0 <= k < before.len() && (#[trigger] before[k]).text@
                                == self.entries@[j].text@;
                        assert(kept@[k] == before[k]);
                    }
                }
            }
            i += 1;
        }
        proof {
            tokens_of_entries(kept@);
            let wanted = unexpired(self@, now).remove(text@);
            let have = tokens_of(kept@);
            assert forall|t: Seq<char>| have.dom().contains(t) implies wanted.dom().contains(t)
                && wanted[t] == have[t] by {
                let k = choose|k: int| 0 <= k < kept@.len() && (#[trigger] kept@[k]).text@ == t;
                let j = choose|j: int|
                    0 <= j < i && (#[trigger] kept@[k]).text@ == (
                    #[trigger] self.entries@[j]).text@ && kept@[k].token == self.entries@[j].token
                        && kept@[k].token.expires_at > now;
                assert(self.entries@[j].text@ == t);
            }
            assert forall|t: Seq<char>| wanted.dom().contains(t) implies have.dom().contains(
                t,
            ) by {
                let j = choose|j: int|
                    0 <= j < self.entries@.len() && (#[trigger] self.entries@[j]).text@ == t;
                let k = choose|k: int|
                    0 <= k < kept@.len() && (#[trigger] kept@[k]).text@ == self.entries@[j].text@;
                assert(kept@[k].text@ == t);
            }
            assert(have =~= wanted);
        }
        kept
    }

    fn put(&mut self, text: String, token: StreamToken, now: u64)
        ensures
            final(self)@ == unexpired(old(self)@, now).insert(text@, token),
    {
        let mut entries = self.others(text.as_str(), now);
        let ghost kept = entries@;
        let ghost shown = text@;
        entries.push(Entry { text, token });
        assert(entries@.drop_last() =~= kept);
        assert(unexpired(self@, now).remove(shown).insert(shown, token) =~= unexpired(
            self@,
            now,
        ).insert(shown, token));
        self.entries = entries;
    }

    /// Adds a token with the given text, valid from now on, and drops those that have expired.
    pub fn insert(&mut self, text: &str, now: u64)
        requires
            now + TOKEN_TTL <= u64::MAX,
        ensures
            final(self)@ == generated(old(self)@, text@, now),
    {
        self.put(text.to_owned(), StreamToken { expires_at: now + TOKEN_TTL, used: false }, now);
    }

    /// Generates a new short-lived stream token.
    pub fn generate(&mut self, now: u64) -> (r: String)
        requires
            now + TOKEN_TTL <= u64::MAX,
        ensures
            is_token_text(r@),
            final(self)@ == generated(old(self)@, r@, now),
    {
        let text = random_text();
        self.insert(text.as_str(), now);
        text
    }

    fn find(&self, text: &str) -> (r: Option<StreamToken>)
        ensures
            match r {
                Some(token) => self@.dom().contains(text@) && self@[text@] == token,
                None => !self@.dom().contains(text@),
            },
    {
        proof {
            use_type_invariant(self);
            tokens_of_entries(self.entries@);
        }
        let mut i: usize = 0;
        while i < self.entries.len()
            invariant
                i <= self.entries@.len(),
                all_different(self.entries@),
                forall|j: int| 0 <= j < i ==> (#[trigger] self.entries@[j]).text@ != text@,
            decreases self.entries.len() - i,
        {
            if same_text(self.entries[i].text.as_str(), text) {
                proof {
                    tokens_of_entries(self.entries@);
                    assert(self.entries@[i as int].text@ == text@);
                }
                return Some(self.entries[i].token);
            }
            i += 1;
        }
        None
    }

    /// Validates and consumes a stream token, and drops those that have expired.
    /// Returns true if the token was valid, false otherwise.
    /// A token can only be used once.
    pub fn validate_and_consume(&mut self, token: &str, now: u64) -> (r: bool)
        ensures
            r == is_valid(old(self)@, token@, now),
            final(self)@ == presented(old(self)@, token@, now),
    {
        match self.find(token) {
            Some(found) => {
                let valid = !found.used && found.expires_at > now;
                if found.expires_at > now {
                    let ghost before = self@;
                    self.put(
                        token.to_owned(),
                        StreamToken { expires_at: found.expires_at, used: true },
                        now,
                    );
                    proof {
                        if !valid {
                            assert(self@ =~= unexpired(before, now));
                        }
                    }
                } else {
                    self.drop_expired(token, now);
                }
                valid
            },
            None => {
                self.drop_expired(token, now);
                false
            },
        }
    }

    /// Drops the tokens that have expired, where the given one is not among the others.
    fn drop_expired(&mut self, token: &str, now: u64)
        requires
            old(self)@.dom().contains(token@) ==> old(self)@[token@].expires_at <= now,
        ensures
            final(self)@ == unexpired(old(self)@, now),
    {
        let entries = self.others(token, now);
        assert(unexpired(self@, now).remove(token@) =~= unexpired(self@, now));
        self.entries = entries;
    }
}

/// A token lives for thirty seconds, to the nanosecond, and can be used in that time once.
pub proof fn token_lives_for_thirty_seconds(
    tokens: Tokens,
    text: Seq<char>,
    now: u64,
    later: u64,
)
    requires
        now + 30_000_000_000 <= u64::MAX,
        now <= later,
    ensures
        is_valid(generated(tokens, text, now), text, later) <==> later - now < 30_000_000_000,
        is_valid(presented(generated(tokens, text, now), text, later), text, later) == false,
{
}

/// The text of a token has 32 characters, each a letter or a digit of ASCII.
pub proof fn token_text_is_letters_and_digits(s: Seq<char>)
    ensures
        is_token_text(s) <==> s.len() == 32 && forall|i: int|
            #![trigger s[i]]
            0 <= i < s.len() ==> 48 <= s[i] as u32 <= 57 || 65 <= s[i] as u32 <= 90 || 97
                <= s[i] as u32 <= 122,
{
    assert forall|i: int|
        #![trigger s[i]]
        0 <= i < s.len() implies (is_alphanumeric(s[i]) <==> 48 <= s[i] as u32 <= 57 || 65 <= s[i] as u32
        <= 90 || 97 <= s[i] as u32 <= 122) by {
        vstd::utf8::char_is_scalar(s[i]);
        vstd::utf8::char_u32_cast(s[i], s[i] as u32);
    }
}

} // verus!
