//! Platform-neutral chat bot types and the splitting of long replies.

use crate::agent::AgentError;
use crate::text::{
    char_len_utf8, char_width, chars_of, lemma_char_width_bounds, lemma_decode_encode,
    lemma_encode_concat, lemma_encode_single, lemma_prefix_is_boundary, lemma_utf8_len_prefix_mono,
    lemma_utf8_len_split, lemma_utf8_len_step, utf8_len,
};
use vstd::prelude::*;
use vstd::utf8::*;

verus! {

broadcast use vstd::utf8::group_utf8_lib;

/// The identifier of a conversation on its platform.
#[derive(Debug, Clone, PartialEq, Eq, Hash)]
pub struct ConversationId(String);

impl View for ConversationId {
    type V = Seq<char>;

    closed spec fn view(&self) -> Seq<char> {
        self.0@
    }
}

impl ConversationId {
    /// An identifier with the given text.
    pub fn new(value: &str) -> (c: ConversationId)
        ensures
            c@ == value@,
    {
        ConversationId(value.to_owned())
    }

    /// The text of the identifier.
    pub fn as_str(&self) -> (s: &str)
        ensures
            s@ == self@,
    {
        self.0.as_str()
    }

    /// Whether two identifiers have the same text.
    pub fn same(&self, other: &ConversationId) -> (b: bool)
        ensures
            b == (self@ == other@),
    {
        self.0 == other.0
    }

    /// A copy of the identifier.
    pub fn copy(&self) -> (c: ConversationId)
        ensures
            c@ == self@,
    {
        ConversationId(self.0.clone())
    }
}

impl From<String> for ConversationId {
    fn from(value: String) -> (c: ConversationId)
        ensures
            c@ == value@,
    {
        ConversationId(value)
    }
}

impl vstd::std_specs::convert::FromSpecImpl<String> for ConversationId {
    open spec fn obeys_from_spec() -> bool {
        true
    }

    open spec fn from_spec(v: String) -> ConversationId {
        conversation_id_of(v)
    }
}

/// The identifier whose text is `v`.
pub closed spec fn conversation_id_of(v: String) -> ConversationId {
    ConversationId(v)
}

/// A conversation: its platform and its identifier there.
#[derive(Debug, Clone, PartialEq, Eq, Hash)]
pub struct ConversationKey {
    pub platform: String,
    pub id: ConversationId,
}

/// The text of the storage key of a conversation: `platform:id`.
pub open spec fn storage_key_text(platform: Seq<char>, id: Seq<char>) -> Seq<char> {
    platform + ":"@ + id
}

impl ConversationKey {
    /// The conversation `id` on `platform`.
    pub fn new(platform: &str, id: &str) -> (k: ConversationKey)
        ensures
            k.platform@ == platform@,
            k.id@ == id@,
    {
        ConversationKey { platform: platform.to_owned(), id: ConversationId::new(id) }
    }

    /// The key under which the conversation's agent session is stored:
    /// `platform:id`.
    pub fn storage_key(&self) -> (s: String)
        ensures
            s@ == storage_key_text(self.platform@, self.id@),
    {
        let mut s = self.platform.clone();
        s.append(":");
        s.append(self.id.as_str());
        s
    }

    /// A copy of the key.
    pub fn copy(&self) -> (k: ConversationKey)
        ensures
            k.platform@ == self.platform@,
            k.id@ == self.id@,
    {
        ConversationKey { platform: self.platform.clone(), id: self.id.copy() }
    }
}

impl Default for ConversationKey {
    fn default() -> (k: ConversationKey)
        ensures
            k.platform@ == Seq::<char>::empty(),
            k.id@ == Seq::<char>::empty(),
    {
        ConversationKey { platform: String::new(), id: ConversationId(String::new()) }
    }
}

/// A message that arrived in a conversation.
#[derive(Debug, Clone, PartialEq, Eq)]
pub struct BotEvent {
    pub key: ConversationKey,
    pub message_id: Option<String>,
    pub author: Option<String>,
    pub text: String,
}

impl BotEvent {
    /// An event without message id or author.
    pub fn new(key: ConversationKey, text: &str) -> (e: BotEvent)
        ensures
            e.key == key,
            e.message_id is None,
            e.author is None,
            e.text@ == text@,
    {
        BotEvent { key, message_id: None, author: None, text: text.to_owned() }
    }
}

/// A reply to send into a conversation.
#[derive(Debug, Clone, PartialEq, Eq)]
pub struct BotResponse {
    pub key: ConversationKey,
    pub text: String,
    pub reply_to: Option<String>,
}

/// What the handler remembers of a conversation.
#[derive(Debug, Clone, PartialEq, Eq)]
pub struct BotSession {
    pub key: ConversationKey,
    pub messages_seen: u64,
}

impl Default for BotSession {
    fn default() -> (s: BotSession)
        ensures
            s.key.platform@ == Seq::<char>::empty(),
            s.key.id@ == Seq::<char>::empty(),
            s.messages_seen == 0,
    {
        BotSession { key: ConversationKey::default(), messages_seen: 0 }
    }
}

/// The session of a conversation seen for the first time.
pub fn fresh_session(key: &ConversationKey) -> (s: BotSession)
    ensures
        s.key.platform@ == key.platform@,
        s.key.id@ == key.id@,
        s.messages_seen == 0,
{
    BotSession { key: key.copy(), messages_seen: 0 }
}

/// The session after one more handled event.
pub fn session_after_event(session: BotSession) -> (s: BotSession)
    requires
        session.messages_seen < u64::MAX,
    ensures
        s.key == session.key,
        s.messages_seen == session.messages_seen + 1,
{
    BotSession { messages_seen: session.messages_seen + 1, ..session }
}

/// Why handling a bot event failed.
#[derive(Debug)]
pub enum BotError {
    Shutdown,
    Cancelled,
    Agent(AgentError),
    Storage(String),
    InvalidSplitLimit,
}

/// The Unicode `White_Space` property, which `char::is_whitespace` reports.
pub open spec fn is_white_space(c: char) -> bool {
    let u = c as u32;
    ||| 0x09 <= u <= 0x0D
    ||| u == 0x20
    ||| u == 0x85
    ||| u == 0xA0
    ||| u == 0x1680
    ||| 0x2000 <= u <= 0x200A
    ||| u == 0x2028
    ||| u == 0x2029
    ||| u == 0x202F
    ||| u == 0x205F
    ||| u == 0x3000
}

/// Whether a character is white space.
pub fn char_is_whitespace(c: char) -> (b: bool)
    ensures
        b == is_white_space(c),
{
    let u = c as u32;
    (0x09 <= u && u <= 0x0D) || u == 0x20 || u == 0x85 || u == 0xA0 || u == 0x1680 || (0x2000 <= u
        && u <= 0x200A) || u == 0x2028 || u == 0x2029 || u == 0x202F || u == 0x205F || u == 0x3000
}

/// How many leading characters of `s` fit, together, into `budget` bytes.
pub open spec fn fit_count(s: Seq<char>, budget: int) -> nat
    decreases s.len(),
{
    if s.len() == 0 {
        0
    } else if char_width(s[0]) <= budget {
        1 + fit_count(s.drop_first(), budget - char_width(s[0]))
    } else {
        0
    }
}

/// The index of the last newline of `s`, or -1.
pub open spec fn last_newline(s: Seq<char>) -> int
    decreases s.len(),
{
    if s.len() == 0 {
        -1
    } else if s.last() == '\n' {
        s.len() - 1
    } else {
        last_newline(s.drop_last())
    }
}

/// The index of the last white-space character of `s`, or -1.
pub open spec fn last_white_space(s: Seq<char>) -> int
    decreases s.len(),
{
    if s.len() == 0 {
        -1
    } else if is_white_space(s.last()) {
        s.len() - 1
    } else {
        last_white_space(s.drop_last())
    }
}

/// The characters a part may take at most: those that fit into `max` bytes,
/// or the first character alone when even that does not fit.
pub open spec fn hard_cut(rest: Seq<char>, max: nat) -> int {
    let k = fit_count(rest, max as int);
    if k == 0 {
        1
    } else {
        k as int
    }
}

/// Where a part ends: after the last newline of the candidate, else after its
/// last white space, else at the hard cut. A break point at the very start of
/// the candidate is not used, and a newline there also stops the search for
/// white space.
pub open spec fn cut_end(rest: Seq<char>, max: nat) -> int {
    let k = hard_cut(rest, max);
    let candidate = rest.take(k);
    let nl = last_newline(candidate);
    if nl >= 0 {
        if nl > 0 {
            nl + 1
        } else {
            k
        }
    } else {
        let ws = last_white_space(candidate);
        if ws > 0 {
            ws + 1
        } else {
            k
        }
    }
}

/// The parts that `split_message` returns for a text and a positive limit.
pub open spec fn split_parts(rest: Seq<char>, max: nat) -> Seq<Seq<char>>
    decreases rest.len(),
{
    if utf8_len(rest) <= max {
        seq![rest]
    } else {
        let k = cut_end(rest, max);
        if 1 <= k <= rest.len() {
            seq![rest.take(k)] + split_parts(rest.skip(k), max)
        } else {
            seq![rest]
        }
    }
}

/// The texts of a list of strings.
pub open spec fn strings_view(v: Seq<String>) -> Seq<Seq<char>> {
    v.map_values(|s: String| s@)
}

/// The concatenation of a list of texts.
pub open spec fn concat_all(parts: Seq<Seq<char>>) -> Seq<char>
    decreases parts.len(),
{
    if parts.len() == 0 {
        Seq::empty()
    } else {
        parts[0] + concat_all(parts.drop_first())
    }
}

/// The fitting count stays within the text and measures a prefix that fits.
proof fn lemma_fit_count(s: Seq<char>, budget: int)
    requires
        budget >= 0,
    ensures
        fit_count(s, budget) <= s.len(),
        utf8_len(s.take(fit_count(s, budget) as int)) <= budget,
        fit_count(s, budget) < s.len() ==> utf8_len(s.take(fit_count(s, budget) + 1int)) > budget,
    decreases s.len(),
{
    let k = fit_count(s, budget);
    if s.len() == 0 {
        assert(s.take(0) =~= Seq::<char>::empty());
        assert(encode_utf8(s.take(0)) =~= Seq::<u8>::empty());
    } else {
        lemma_char_width_bounds(s[0]);
        assert(seq![s[0]] + s.drop_first() =~= s);
        if char_width(s[0]) <= budget {
            let t = s.drop_first();
            let b2 = budget - char_width(s[0]);
            lemma_fit_count(t, b2);
            let k2 = fit_count(t, b2);
            assert(s.take(k as int) =~= seq![s[0]] + t.take(k2 as int));
            lemma_encode_concat(seq![s[0]], t.take(k2 as int));
            lemma_encode_single(s[0]);
            if k < s.len() {
                assert(s.take(k + 1int) =~= seq![s[0]] + t.take(k2 + 1int));
                lemma_encode_concat(seq![s[0]], t.take(k2 + 1int));
            }
        } else {
            assert(s.take(0) =~= Seq::<char>::empty());
            assert(encode_utf8(s.take(0)) =~= Seq::<u8>::empty());
            lemma_utf8_len_step(s, 0);
        }
    }
}

/// Dropping the counted characters leaves the remaining budget's count.
proof fn lemma_fit_count_skip(s: Seq<char>, budget: int, i: int)
    requires
        0 <= i < s.len(),
        char_width(s[i]) <= budget - utf8_len(s.take(i)),
        fit_count(s, budget) == i + fit_count(s.skip(i), budget - utf8_len(s.take(i))),
    ensures
        fit_count(s, budget) == (i + 1) + fit_count(s.skip(i + 1), budget - utf8_len(s.take(i + 1))),
{
    let t = s.skip(i);
    assert(t[0] == s[i]);
    assert(t.drop_first() =~= s.skip(i + 1));
    lemma_utf8_len_step(s, i);
}

/// A part followed by the rest of the text is the text.
proof fn lemma_concat_step(rest: Seq<char>, k: int, later: Seq<Seq<char>>)
    requires
        0 <= k <= rest.len(),
        concat_all(later) == rest.skip(k),
    ensures
        concat_all(seq![rest.take(k)] + later) == rest,
{
    let all = seq![rest.take(k)] + later;
    assert(all[0] == rest.take(k));
    assert(all.drop_first() =~= later);
    assert(rest.take(k) + rest.skip(k) =~= rest);
}

/// The parts of a text, joined, give the text back.
pub proof fn lemma_split_parts_concat(rest: Seq<char>, max: nat)
    ensures
        concat_all(split_parts(rest, max)) == rest,
    decreases rest.len(),
{
    let single = seq![rest];
    assert(single.drop_first() =~= Seq::<Seq<char>>::empty());
    assert(concat_all(Seq::<Seq<char>>::empty()) == Seq::<char>::empty());
    assert(rest + Seq::<char>::empty() =~= rest);
    assert(concat_all(single) == single[0] + concat_all(single.drop_first()));
    if utf8_len(rest) > max {
        let k = cut_end(rest, max);
        if 1 <= k <= rest.len() {
            lemma_split_parts_concat(rest.skip(k), max);
            lemma_concat_step(rest, k, split_parts(rest.skip(k), max));
        }
    }
}

/// The cut end is at least one character and at most the hard cut.
proof fn lemma_cut_end_range(rest: Seq<char>, max: nat)
    requires
        utf8_len(rest) > max,
        max > 0,
    ensures
        1 <= cut_end(rest, max) <= hard_cut(rest, max) <= rest.len(),
        hard_cut(rest, max) > 1 ==> utf8_len(rest.take(hard_cut(rest, max))) <= max,
{
    lemma_fit_count(rest, max as int);
    let k0 = fit_count(rest, max as int);
    if k0 == rest.len() {
        assert(rest.take(k0 as int) =~= rest);
    }
    assert(rest.len() > 0) by {
        if rest.len() == 0 {
            assert(encode_utf8(rest) =~= Seq::<u8>::empty());
        }
    }
    let k = hard_cut(rest, max);
    let candidate = rest.take(k);
    lemma_last_newline_range(candidate);
    lemma_last_white_space_range(candidate);
}

proof fn lemma_last_newline_range(s: Seq<char>)
    ensures
        -1 <= last_newline(s) < s.len(),
        last_newline(s) >= 0 ==> s[last_newline(s)] == '\n',
    decreases s.len(),
{
    if s.len() > 0 && s.last() != '\n' {
        lemma_last_newline_range(s.drop_last());
    }
}

proof fn lemma_last_white_space_range(s: Seq<char>)
    ensures
        -1 <= last_white_space(s) < s.len(),
        last_white_space(s) >= 0 ==> is_white_space(s[last_white_space(s)]),
    decreases s.len(),
{
    if s.len() > 0 && !is_white_space(s.last()) {
        lemma_last_white_space_range(s.drop_last());
    }
}

/// Every part fits into the limit, unless it is a single character wider than
/// the limit.
pub proof fn lemma_split_parts_bounded(rest: Seq<char>, max: nat)
    requires
        max > 0,
    ensures
        forall|i: int|
            0 <= i < split_parts(rest, max).len() ==> utf8_len(#[trigger] split_parts(rest, max)[i])
                <= max || split_parts(rest, max)[i].len() == 1,
    decreases rest.len(),
{
    let parts = split_parts(rest, max);
    if utf8_len(rest) <= max {
    } else {
        lemma_cut_end_range(rest, max);
        let k = cut_end(rest, max);
        let h = hard_cut(rest, max);
        lemma_split_parts_bounded(rest.skip(k), max);
        let later = split_parts(rest.skip(k), max);
        assert forall|i: int| 0 <= i < parts.len() implies utf8_len(#[trigger] parts[i]) <= max
            || parts[i].len() == 1 by {
            if i == 0 {
                assert(parts[0] == rest.take(k));
                if h > 1 {
                    lemma_utf8_len_prefix_mono(rest.take(h), k, h);
                    assert(rest.take(h).take(k) =~= rest.take(k));
                    assert(rest.take(h).take(h) =~= rest.take(h));
                } else {
                    assert(rest.take(k).len() == 1);
                }
            } else {
                assert(parts[i] == later[i - 1]);
            }
        }
    }
}

/// The last newline of a text is at `q` when `q` holds one and no later
/// character does.
proof fn lemma_last_newline_at(s: Seq<char>, q: int)
    requires
        0 <= q < s.len(),
        s[q] == '\n',
        forall|r: int| q < r < s.len() ==> s[r] != '\n',
    ensures
        last_newline(s) == q,
    decreases s.len(),
{
    if s.last() != '\n' {
        lemma_last_newline_at(s.drop_last(), q);
    }
}

/// A text without a newline has none last.
proof fn lemma_no_newline(s: Seq<char>)
    requires
        forall|r: int| 0 <= r < s.len() ==> s[r] != '\n',
    ensures
        last_newline(s) == -1,
    decreases s.len(),
{
    if s.len() > 0 {
        lemma_no_newline(s.drop_last());
    }
}

/// The last white space of a text is at `q` when `q` holds some and no later
/// character does.
proof fn lemma_last_white_space_at(s: Seq<char>, q: int)
    requires
        0 <= q < s.len(),
        is_white_space(s[q]),
        forall|r: int| q < r < s.len() ==> !is_white_space(s[r]),
    ensures
        last_white_space(s) == q,
    decreases s.len(),
{
    if !is_white_space(s.last()) {
        lemma_last_white_space_at(s.drop_last(), q);
    }
}

/// A text without white space past its first character has none last but
/// possibly there.
proof fn lemma_no_late_white_space(s: Seq<char>)
    requires
        forall|r: int| 0 < r < s.len() ==> !is_white_space(s[r]),
    ensures
        last_white_space(s) <= 0,
    decreases s.len(),
{
    if s.len() > 1 {
        lemma_no_late_white_space(s.drop_last());
    } else if s.len() == 1 {
        assert(last_white_space(s.drop_last()) == -1);
    }
}

/// The candidate of a part is the longest prefix of the text that fits into
/// `max` bytes, or its first character alone when even that does not fit.
pub proof fn lemma_hard_cut_is_longest_fit(rest: Seq<char>, max: nat)
    requires
        utf8_len(rest) > max,
        max > 0,
    ensures
        1 <= hard_cut(rest, max) <= rest.len(),
        hard_cut(rest, max) > 1 ==> utf8_len(rest.take(hard_cut(rest, max))) <= max,
        utf8_len(rest.take(1)) <= max ==> utf8_len(rest.take(hard_cut(rest, max))) <= max,
        hard_cut(rest, max) < rest.len() ==> utf8_len(rest.take(hard_cut(rest, max) + 1)) > max,
{
    lemma_cut_end_range(rest, max);
    lemma_fit_count(rest, max as int);
}

/// A part that is cut ends right after the last newline of its candidate,
/// when that newline is not the candidate's first character.
pub proof fn lemma_split_prefers_newline(rest: Seq<char>, max: nat, q: int)
    requires
        max > 0,
        utf8_len(rest) > max,
        0 < q < hard_cut(rest, max),
        rest[q] == '\n',
        forall|r: int| q < r < hard_cut(rest, max) ==> rest[r] != '\n',
    ensures
        split_parts(rest, max)[0] == rest.take(q + 1),
{
    lemma_cut_end_range(rest, max);
    let h = hard_cut(rest, max);
    let candidate = rest.take(h);
    lemma_last_newline_at(candidate, q);
    assert(cut_end(rest, max) == q + 1);
}

/// Without a newline in its candidate, a part that is cut ends right after
/// the candidate's last white space, when that is not its first character.
pub proof fn lemma_split_falls_back_to_white_space(rest: Seq<char>, max: nat, q: int)
    requires
        max > 0,
        utf8_len(rest) > max,
        0 < q < hard_cut(rest, max),
        is_white_space(rest[q]),
        forall|r: int| 0 <= r < hard_cut(rest, max) ==> rest[r] != '\n',
        forall|r: int| q < r < hard_cut(rest, max) ==> !is_white_space(rest[r]),
    ensures
        split_parts(rest, max)[0] == rest.take(q + 1),
{
    lemma_cut_end_range(rest, max);
    let h = hard_cut(rest, max);
    let candidate = rest.take(h);
    lemma_no_newline(candidate);
    lemma_last_white_space_at(candidate, q);
    assert(cut_end(rest, max) == q + 1);
}

/// Without a newline or white space past its first character, a part that is
/// cut is its whole candidate.
pub proof fn lemma_split_takes_whole_candidate(rest: Seq<char>, max: nat)
    requires
        max > 0,
        utf8_len(rest) > max,
        forall|r: int| 0 < r < hard_cut(rest, max) ==> rest[r] != '\n' && !is_white_space(rest[r]),
    ensures
        split_parts(rest, max)[0] == rest.take(hard_cut(rest, max)),
{
    lemma_cut_end_range(rest, max);
    let h = hard_cut(rest, max);
    let candidate = rest.take(h);
    lemma_no_late_white_space(candidate);
    if last_newline(candidate) > 0 {
        lemma_last_newline_range(candidate);
    }
    assert(cut_end(rest, max) == h);
}

/// The text of each part is the text between two cuts.
proof fn lemma_slice_view(rest: Seq<char>, k: int, head: Seq<char>, tail: Seq<char>)
    requires
        0 <= k <= rest.len(),
        encode_utf8(head) == encode_utf8(rest).subrange(0, utf8_len(rest.take(k)) as int),
        encode_utf8(tail) == encode_utf8(rest).subrange(
            utf8_len(rest.take(k)) as int,
            encode_utf8(rest).len() as int,
        ),
    ensures
        head == rest.take(k),
        tail == rest.skip(k),
{
    lemma_utf8_len_split(rest, k);
    assert(encode_utf8(rest).subrange(0, utf8_len(rest.take(k)) as int) =~= encode_utf8(
        rest.take(k),
    ));
    assert(encode_utf8(rest).subrange(
        utf8_len(rest.take(k)) as int,
        encode_utf8(rest).len() as int,
    ) =~= encode_utf8(rest.skip(k)));
    lemma_decode_encode(head);
    lemma_decode_encode(rest.take(k));
    lemma_decode_encode(tail);
    lemma_decode_encode(rest.skip(k));
}


/// The number of leading characters of `chars[start..]` that fit into
/// `max_bytes` bytes, and their byte length.
fn count_fitting(chars: &Vec<char>, start: usize, max_bytes: usize) -> (r: (usize, usize))
    requires
        start <= chars@.len(),
        utf8_len(chars@.skip(start as int)) > max_bytes,
        utf8_len(chars@.skip(start as int)) <= usize::MAX,
    ensures
        r.0 == fit_count(chars@.skip(start as int), max_bytes as int),
        r.1 == utf8_len(chars@.skip(start as int).take(r.0 as int)),
{
    let n = chars.len();
    let ghost rest = chars@.skip(start as int);
    let ghost max = max_bytes as nat;
    let mut k: usize = 0;
    let mut acc: usize = 0;
    assert(rest.skip(0) =~= rest);
    assert(rest.take(0) =~= Seq::<char>::empty());
    assert(encode_utf8(rest.take(0)) =~= Seq::<u8>::empty());
    loop
        invariant
            start + k <= chars@.len(),
            n == chars@.len(),
            rest == chars@.skip(start as int),
            k <= rest.len(),
            acc == utf8_len(rest.take(k as int)),
            acc <= max_bytes,
            max == max_bytes as nat,
            utf8_len(rest) > max,
            utf8_len(rest) <= usize::MAX,
            fit_count(rest, max as int) == k + fit_count(rest.skip(k as int), max - acc),
        ensures
            k == fit_count(rest, max as int),
            acc == utf8_len(rest.take(k as int)),
        decreases rest.len() - k,
    {
        if start + k >= chars.len() {
            assert(rest.skip(k as int) =~= Seq::<char>::empty());
            break;
        }
        let w = char_len_utf8(chars[start + k]);
        assert(chars@[start + k] == rest[k as int]);
        proof {
            lemma_utf8_len_step(rest, k as int);
            lemma_utf8_len_prefix_mono(rest, k + 1, k + 1);
        }
        if acc + w > max_bytes {
            assert(rest.skip(k as int)[0] == rest[k as int]);
            break;
        }
        proof {
            lemma_fit_count_skip(rest, max as int, k as int);
        }
        acc = acc + w;
        k = k + 1;
    }
    (k, acc)
}

/// The index of the last newline among the first `count` characters of
/// `chars[start..]`.
fn find_last_newline(chars: &Vec<char>, start: usize, count: usize) -> (r: Option<usize>)
    requires
        start + count <= chars@.len(),
    ensures
        match r {
            Some(p) => last_newline(chars@.skip(start as int).take(count as int)) == p,
            None => last_newline(chars@.skip(start as int).take(count as int)) == -1,
        },
{
    let n = chars.len();
    let ghost candidate = chars@.skip(start as int).take(count as int);
    let mut j: usize = count;
    assert(candidate.take(count as int) =~= candidate);
    while j > 0
        invariant
            j <= count,
            n == chars@.len(),
            start + count <= chars@.len(),
            candidate == chars@.skip(start as int).take(count as int),
            last_newline(candidate) == last_newline(candidate.take(j as int)),
        decreases j,
    {
        assert(chars@[start + j - 1] == candidate.take(j as int).last());
        if chars[start + j - 1] == '\n' {
            return Some(j - 1);
        }
        assert(candidate.take(j as int).drop_last() =~= candidate.take(j - 1));
        j = j - 1;
    }
    assert(candidate.take(0) =~= Seq::<char>::empty());
    None
}

/// The index of the last white-space character among the first `count`
/// characters of `chars[start..]`.
fn find_last_white_space(chars: &Vec<char>, start: usize, count: usize) -> (r: Option<usize>)
    requires
        start + count <= chars@.len(),
    ensures
        match r {
            Some(p) => last_white_space(chars@.skip(start as int).take(count as int)) == p,
            None => last_white_space(chars@.skip(start as int).take(count as int)) == -1,
        },
{
    let n = chars.len();
    let ghost candidate = chars@.skip(start as int).take(count as int);
    let mut j: usize = count;
    assert(candidate.take(count as int) =~= candidate);
    while j > 0
        invariant
            j <= count,
            n == chars@.len(),
            start + count <= chars@.len(),
            candidate == chars@.skip(start as int).take(count as int),
            last_white_space(candidate) == last_white_space(candidate.take(j as int)),
        decreases j,
    {
        assert(chars@[start + j - 1] == candidate.take(j as int).last());
        if char_is_whitespace(chars[start + j - 1]) {
            return Some(j - 1);
        }
        assert(candidate.take(j as int).drop_last() =~= candidate.take(j - 1));
        j = j - 1;
    }
    assert(candidate.take(0) =~= Seq::<char>::empty());
    None
}

/// The number of characters of the next part of `chars[start..]`.
fn next_cut(chars: &Vec<char>, start: usize, max_bytes: usize) -> (end: usize)
    requires
        start <= chars@.len(),
        max_bytes > 0,
        utf8_len(chars@.skip(start as int)) > max_bytes,
        utf8_len(chars@.skip(start as int)) <= usize::MAX,
    ensures
        end == cut_end(chars@.skip(start as int), max_bytes as nat),
        1 <= end <= chars@.len() - start,
{
    let ghost rest = chars@.skip(start as int);
    proof {
        lemma_cut_end_range(rest, max_bytes as nat);
    }
    let (k, _) = count_fitting(chars, start, max_bytes);
    let hard = if k == 0 {
        1
    } else {
        k
    };
    assert(hard == hard_cut(rest, max_bytes as nat));
    let mut end: usize = hard;
    match find_last_newline(chars, start, hard) {
        Some(p) => {
            if p > 0 {
                end = p + 1;
            }
        },
        None => {
            match find_last_white_space(chars, start, hard) {
                Some(p) => {
                    if p > 0 {
                        end = p + 1;
                    }
                },
                None => {},
            }
        },
    }
    end
}

/// The byte length of the first `count` characters of `chars[start..]`.
fn byte_offset(chars: &Vec<char>, start: usize, count: usize) -> (mid: usize)
    requires
        start + count <= chars@.len(),
        utf8_len(chars@.skip(start as int)) <= usize::MAX,
    ensures
        mid == utf8_len(chars@.skip(start as int).take(count as int)),
{
    let n = chars.len();
    let ghost rest = chars@.skip(start as int);
    let mut mid: usize = 0;
    let mut i: usize = 0;
    assert(rest.take(0) =~= Seq::<char>::empty());
    assert(encode_utf8(rest.take(0)) =~= Seq::<u8>::empty());
    while i < count
        invariant
            i <= count,
            n == chars@.len(),
            start + count <= chars@.len(),
            rest == chars@.skip(start as int),
            mid == utf8_len(rest.take(i as int)),
            utf8_len(rest) <= usize::MAX,
        decreases count - i,
    {
        proof {
            lemma_utf8_len_step(rest, i as int);
            lemma_utf8_len_prefix_mono(rest, i + 1, i + 1);
        }
        assert(chars@[start + i] == rest[i as int]);
        mid = mid + char_len_utf8(chars[start + i]);
        i = i + 1;
    }
    mid
}

/// Splits a reply into parts of at most `max_bytes` bytes of UTF-8, cutting
/// only between characters and preferring to cut after a newline, else after
/// white space. A single character wider than the limit forms a part of its
/// own. An empty text yields one empty part; a limit of zero is refused.
pub fn split_message(text: &str, max_bytes: usize) -> (r: Result<Vec<String>, BotError>)
    ensures
        max_bytes == 0 ==> r matches Err(BotError::InvalidSplitLimit),
        max_bytes > 0 ==> (r matches Ok(parts) && strings_view(parts@) == split_parts(
            text@,
            max_bytes as nat,
        )),
        max_bytes > 0 ==> (r matches Ok(parts) && {
            &&& parts@.len() >= 1
            &&& concat_all(strings_view(parts@)) == text@
            &&& forall|i: int|
                0 <= i < parts@.len() ==> utf8_len((#[trigger] parts@[i])@) <= max_bytes
                    || parts@[i]@.len() == 1
        }),
{
    if max_bytes == 0 {
        return Err(BotError::InvalidSplitLimit);
    }
    let ghost max = max_bytes as nat;
    let total = text.as_bytes().len();
    assert(total == utf8_len(text@));
    let chars = chars_of(text);
    let n = chars.len();
    let mut parts: Vec<String> = Vec::new();
    let mut remaining: &str = text;
    let mut start: usize = 0;
    assert(text@.skip(0) =~= text@);
    while remaining.len() > max_bytes
        invariant
            max_bytes > 0,
            max == max_bytes as nat,
            start <= chars@.len(),
            n == chars@.len(),
            chars@ == text@,
            remaining@ == chars@.skip(start as int),
            utf8_len(remaining@) <= usize::MAX,
            split_parts(text@, max) == strings_view(parts@) + split_parts(remaining@, max),
        decreases chars@.len() - start,
    {
        let ghost rest = remaining@;
        let ghost parts_before = parts@;
        let end = next_cut(&chars, start, max_bytes);
        let mid = byte_offset(&chars, start, end);
        proof {
            lemma_prefix_is_boundary(rest, end as int);
        }
        let (head, tail) = remaining.split_at(mid);
        proof {
            lemma_slice_view(rest, end as int, head@, tail@);
            lemma_utf8_len_split(rest, end as int);
        }
        parts.push(head.to_owned());
        remaining = tail;
        start = start + end;
        proof {
            assert(chars@.skip(start as int) =~= rest.skip(end as int));
            assert(strings_view(parts@) =~= strings_view(parts_before) + seq![rest.take(end as int)]);
            assert(split_parts(rest, max) == seq![rest.take(end as int)] + split_parts(
                rest.skip(end as int),
                max,
            ));
            assert(split_parts(text@, max) =~= strings_view(parts@) + split_parts(remaining@, max));
        }
    }
    let ghost before = parts@;
    parts.push(remaining.to_owned());
    assert(strings_view(parts@) =~= strings_view(before) + seq![remaining@]);
    proof {
        let pieces = split_parts(text@, max);
        assert(pieces.len() >= 1);
        lemma_split_parts_concat(text@, max);
        lemma_split_parts_bounded(text@, max);
        assert forall|i: int| 0 <= i < parts@.len() implies utf8_len((#[trigger] parts@[i])@)
            <= max_bytes || parts@[i]@.len() == 1 by {
            assert(parts@[i]@ == strings_view(parts@)[i]);
        }
    }
    Ok(parts)
}


/// A copy of an optional string.
fn copy_opt(o: &Option<String>) -> (r: Option<String>)
    ensures
        r == *o,
{
    match o {
        Some(s) => Some(s.clone()),
        None => None,
    }
}

/// The responses to one reply: one per part of the reply split at `max`
/// bytes, in order, each addressed to the conversation and to the message
/// replied to.
pub open spec fn responses_for(
    key: ConversationKey,
    reply_to: Option<String>,
    reply: Seq<char>,
    max: nat,
    responses: Seq<BotResponse>,
) -> bool {
    let parts = split_parts(reply, max);
    &&& responses.len() == parts.len()
    &&& forall|i: int|
        0 <= i < parts.len() ==> {
            &&& (#[trigger] responses[i]).text@ == parts[i]
            &&& responses[i].key.platform@ == key.platform@
            &&& responses[i].key.id@ == key.id@
            &&& responses[i].reply_to == reply_to
        }
}

/// The texts of responses, in order.
pub open spec fn response_texts(responses: Seq<BotResponse>) -> Seq<Seq<char>> {
    responses.map_values(|r: BotResponse| r.text@)
}

/// What the responses to a reply give: at least one response; their texts,
/// joined in order, are the reply; each text fits the byte limit unless it is
/// a single character wider than the limit.
pub proof fn lemma_responses_cover_reply(
    key: ConversationKey,
    reply_to: Option<String>,
    reply: Seq<char>,
    max: nat,
    responses: Seq<BotResponse>,
)
    requires
        max > 0,
        responses_for(key, reply_to, reply, max, responses),
    ensures
        responses.len() >= 1,
        concat_all(response_texts(responses)) == reply,
        forall|i: int|
            0 <= i < responses.len() ==> utf8_len((#[trigger] responses[i]).text@) <= max
                || responses[i].text@.len() == 1,
{
    let parts = split_parts(reply, max);
    assert(parts.len() >= 1);
    assert(response_texts(responses) =~= parts);
    lemma_split_parts_concat(reply, max);
    lemma_split_parts_bounded(reply, max);
    assert forall|i: int| 0 <= i < responses.len() implies utf8_len((#[trigger] responses[i]).text@)
        <= max || responses[i].text@.len() == 1 by {
        assert(responses[i].text@ == parts[i]);
    }
}

/// The replies to an event: the agent's reply split into parts of at most
/// `max_bytes` bytes, each addressed to the conversation and answering the
/// event's message.
pub fn build_responses(
    key: &ConversationKey,
    reply_to: &Option<String>,
    reply: &str,
    max_bytes: usize,
) -> (r: Result<Vec<BotResponse>, BotError>)
    ensures
        max_bytes == 0 ==> r matches Err(BotError::InvalidSplitLimit),
        max_bytes > 0 ==> (r matches Ok(responses) && responses_for(
            *key,
            *reply_to,
            reply@,
            max_bytes as nat,
            responses@,
        )),
{
    let chunks = match split_message(reply, max_bytes) {
        Ok(chunks) => chunks,
        Err(e) => return Err(e),
    };
    let ghost parts = split_parts(reply@, max_bytes as nat);
    let mut out: Vec<BotResponse> = Vec::new();
    let mut i: usize = 0;
    while i < chunks.len()
        invariant
            i <= chunks@.len(),
            strings_view(chunks@) == parts,
            out@.len() == i,
            forall|j: int|
                0 <= j < i ==> {
                    &&& (#[trigger] out@[j]).text@ == parts[j]
                    &&& out@[j].key.platform@ == key.platform@
                    &&& out@[j].key.id@ == key.id@
                    &&& out@[j].reply_to == *reply_to
                },
        decreases chunks@.len() - i,
    {
        assert(parts[i as int] == chunks@[i as int]@);
        out.push(BotResponse { key: key.copy(), text: chunks[i].clone(), reply_to: copy_opt(reply_to) });
        i = i + 1;
    }
    Ok(out)
}

} // verus!
