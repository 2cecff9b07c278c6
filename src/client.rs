//! The terminal client's reading of typed lines into commands.

use vstd::prelude::*;
use crate::commands::DeviceMessage;
use crate::sdp::{is_alphanumeric, random_alphanumeric, SdpType, SessionDescription, RANDOM_DESCRIPTION_LEN};

verus! {

/// Characters with Unicode's White_Space property.
pub open spec fn is_white_space(c: char) -> bool {
    let n = c as u32;
    (0x09 <= n <= 0x0D) || n == 0x20 || n == 0x85 || n == 0xA0 || n == 0x1680 || (0x2000 <= n
        <= 0x200A) || n == 0x2028 || n == 0x2029 || n == 0x202F || n == 0x205F || n == 0x3000
}

/// The words of `s`: its maximal runs of characters other than white space,
/// in order.
pub open spec fn words_of(s: Seq<char>) -> Seq<Seq<char>>
    decreases s.len(),
{
    if s.len() == 0 {
        Seq::empty()
    } else {
        let c = s.last();
        let rest = words_of(s.drop_last());
        if is_white_space(c) {
            rest
        } else if s.len() >= 2 && !is_white_space(s[s.len() - 2]) {
            rest.update(rest.len() - 1, rest.last().push(c))
        } else {
            rest.push(seq![c])
        }
    }
}

/// The characters of each word.
pub open spec fn word_views(v: Seq<String>) -> Seq<Seq<char>> {
    v.map_values(|w: String| w@)
}

/// Relies on `str::split_whitespace`: the substrings of `s` separated by
/// white space as `char::is_whitespace` defines it (Unicode's White_Space),
/// with no empty ones.
#[verifier::external_body]
fn split_words(s: &str) -> (r: Vec<String>)
    ensures
        word_views(r@) == words_of(s@),
{
    s.split_whitespace().map(|w| w.to_string()).collect()
}

/// A line that is not a command, as sent to the server: `[<sender>] <line>`.
pub fn chat_text(sender: &str, line: &str) -> (r: String)
    ensures
        r@ == "["@ + sender@ + "] "@ + line@,
{
    let mut r = String::from_str("[");
    r.append(sender);
    r.append("] ");
    r.append(line);
    r
}

/// Whether two texts hold the same characters.
pub fn text_eq(a: &str, b: &str) -> (r: bool)
    ensures
        r == (a@ == b@),
{
    let n = a.unicode_len();
    if n != b.unicode_len() {
        return false;
    }
    let mut i: usize = 0;
    while i < n
        invariant
            n == a@.len(),
            n == b@.len(),
            i <= n,
            forall|j: int| 0 <= j < i ==> a@[j] == b@[j],
        decreases n - i,
    {
        if a.get_char(i) != b.get_char(i) {
            return false;
        }
        i += 1;
    }
    proof {
        assert(a@ =~= b@);
    }
    true
}

/// The command a typed line asks for, given its words: `quit`, `list`,
/// `offer <name>` or `answer <name>`; the kind of description it needs, if any.
pub open spec fn description_kind(words: Seq<Seq<char>>) -> Option<SdpType> {
    if words.len() >= 2 && words[0] == "offer"@ {
        Some(SdpType::Offer)
    } else if words.len() >= 2 && words[0] == "answer"@ {
        Some(SdpType::Answer)
    } else {
        None
    }
}

/// Whether the words make a command that the line is replaced by.
pub open spec fn is_command(words: Seq<Seq<char>>) -> bool {
    words.len() >= 1 && (words[0] == "quit"@ || words[0] == "list"@ || description_kind(words).is_some())
}

/// What a command message holds, given the words of the line, the sender's
/// name and the description payload used for an offer or answer.
pub open spec fn command_holds(
    r: Option<DeviceMessage>,
    words: Seq<Seq<char>>,
    sender: Seq<char>,
) -> bool {
    match r {
        None => !is_command(words),
        Some(DeviceMessage::Quit) => words.len() >= 1 && words[0] == "quit"@,
        Some(DeviceMessage::ListUsersRequest) => words.len() >= 1 && words[0] == "list"@,
        Some(DeviceMessage::Offer(d)) => description_kind(words) == Some(SdpType::Offer)
            && d.sdp_type == SdpType::Offer && d.receiver@ == words[1] && d.sender@ == sender,
        Some(DeviceMessage::Answer(d)) => description_kind(words) == Some(SdpType::Answer)
            && d.sdp_type == SdpType::Answer && d.receiver@ == words[1] && d.sender@ == sender,
        _ => false,
    }
}

/// The command that the words of a typed line make, with `description` as
/// the payload of an offer or answer. Any other line is plain text: `None`.
/// An `offer` or `answer` without a name after it is plain text too.
pub fn command_of_words(words: &Vec<String>, sender: &str, description: String) -> (r: Option<
    DeviceMessage,
>)
    ensures
        command_holds(r, word_views(words@), sender@),
        match r {
            Some(DeviceMessage::Offer(d)) => d.description@ == description@,
            Some(DeviceMessage::Answer(d)) => d.description@ == description@,
            _ => true,
        },
{
    let ghost w = word_views(words@);
    if words.len() == 0 {
        return None;
    }
    let first = words[0].as_str();
    proof {
        assert(w[0] == words@[0]@);
        if words@.len() >= 2 {
            assert(w[1] == words@[1]@);
        }
    }
    if text_eq(first, "quit") {
        Some(DeviceMessage::Quit)
    } else if text_eq(first, "list") {
        Some(DeviceMessage::ListUsersRequest)
    } else if words.len() >= 2 && text_eq(first, "offer") {
        let sdp = SessionDescription::new(
            String::from_str(sender),
            words[1].clone(),
            description,
            SdpType::Offer,
        );
        Some(DeviceMessage::Offer(sdp))
    } else if words.len() >= 2 && text_eq(first, "answer") {
        let sdp = SessionDescription::new(
            String::from_str(sender),
            words[1].clone(),
            description,
            SdpType::Answer,
        );
        Some(DeviceMessage::Answer(sdp))
    } else {
        None
    }
}

/// The command that a line typed by `sender` makes, or `None` for a line to
/// send as plain text. An offer or answer carries a freshly drawn payload of
/// `RANDOM_DESCRIPTION_LEN` letters and digits.
pub fn check_command(input: &str, sender: &str) -> (r: Option<DeviceMessage>)
    ensures
        command_holds(r, words_of(input@), sender@),
        match r {
            Some(DeviceMessage::Offer(d)) => d.description@.len() == RANDOM_DESCRIPTION_LEN
                && forall|i: int|
                0 <= i < d.description@.len() ==> is_alphanumeric(#[trigger] d.description@[i]),
            Some(DeviceMessage::Answer(d)) => d.description@.len() == RANDOM_DESCRIPTION_LEN
                && forall|i: int|
                0 <= i < d.description@.len() ==> is_alphanumeric(#[trigger] d.description@[i]),
            _ => true,
        },
{
    let words = split_words(input);
    let wants_payload = words.len() >= 2 && (text_eq(words[0].as_str(), "offer") || text_eq(
        words[0].as_str(),
        "answer",
    ));
    let description = if wants_payload {
        random_alphanumeric(RANDOM_DESCRIPTION_LEN)
    } else {
        String::new()
    };
    command_of_words(&words, sender, description)
}

} // verus!
