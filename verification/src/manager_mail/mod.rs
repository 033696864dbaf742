//! Mails that tell of errors: the addresses and the mail itself. Sending it
//! is not part of the library.

pub mod errors;

use vstd::prelude::*;
use vstd::string::{StrSliceExecFns, StringExecFns};
use crate::errors::prefixed;
use crate::models::sendgrid::{Address, Content, Email, Personalizations};
use crate::text::{string_of, trim, trimmed_of};

verus! {

/// Error of the mail service.
#[derive(Debug)]
pub enum MailError {
    /// The text is no mail address.
    InvalidEmailAddress(String),
    /// The mail could not be written out.
    Document(String),
    /// The mail service did not take the mail.
    SendgridError(String),
}

impl MailError {
    /// The message of the error, by its kind.
    pub fn message(&self) -> (r: String)
        ensures
            r@ == match self {
                MailError::InvalidEmailAddress(e) => "MailError::InvalidEmailAddress: "@ + e@,
                MailError::Document(e) => "MailError::Document: "@ + e@,
                MailError::SendgridError(e) => "MailError::SendgridError: "@ + e@,
            },
    {
        match self {
            MailError::InvalidEmailAddress(e) => prefixed(
                "MailError::InvalidEmailAddress: ",
                e.as_str(),
            ),
            MailError::Document(e) => prefixed("MailError::Document: ", e.as_str()),
            MailError::SendgridError(e) => prefixed("MailError::SendgridError: ", e.as_str()),
        }
    }
}

/// Who sends the mails, and to whom.
#[derive(Debug)]
pub struct Mail {
    pub api_key: String,
    pub from: Address,
    pub to: Address,
}

/// The upper-case form of a character, which may be more than one character.
pub uninterp spec fn uppercase_of(c: char) -> Seq<char>;

/// `char::to_uppercase` of std, which vstd does not specify. The contract
/// only names the result.
#[verifier::external_body]
fn to_uppercase(c: char) -> (r: String)
    ensures
        r@ == uppercase_of(c),
{
    c.to_uppercase().collect()
}

/// The characters of `text` without the white space at its ends.
fn trim_chars(text: &Vec<char>) -> (r: Vec<char>)
    ensures
        r@ == trimmed_of(text@),
{
    let s = string_of(text);
    let t = trim(s.as_str());
    chars_of(t.as_str())
}



/// Number of times that `c` occurs among the first `n` characters of `s`.
pub open spec fn count_of(s: Seq<char>, c: char, n: int) -> int
    decreases n,
{
    if n <= 0 {
        0
    } else if s[n - 1] == c {
        count_of(s, c, n - 1) + 1
    } else {
        count_of(s, c, n - 1)
    }
}

/// Position of the first `c` in `s` at or after `from`, or the length of
/// `s` where there is none.
pub open spec fn index_of(s: Seq<char>, c: char, from: int) -> int
    decreases s.len() - from,
{
    if from >= s.len() {
        s.len() as int
    } else if s[from] == c {
        from
    } else {
        index_of(s, c, from + 1)
    }
}

/// The first `n` characters of `s` without those that are `c`.
pub open spec fn without(s: Seq<char>, c: char, n: int) -> Seq<char>
    decreases n,
{
    if n <= 0 {
        Seq::empty()
    } else if s[n - 1] == c {
        without(s, c, n - 1)
    } else {
        without(s, c, n - 1).push(s[n - 1])
    }
}

/// `part` with its first character in upper case.
pub open spec fn init_cap(part: Seq<char>) -> Seq<char> {
    if part.len() == 0 {
        part
    } else {
        uppercase_of(part[0]) + part.subrange(1, part.len() as int)
    }
}

/// The name that is shown for the part of an address before the `@`, from
/// position `from` on: each part between dots, with its first character in
/// upper case and a blank before it.
pub open spec fn shown_name(local: Seq<char>, from: int) -> Seq<char>
    decreases local.len() - from,
{
    if from > local.len() {
        Seq::empty()
    } else {
        let dot = index_of(local, '.', from);
        let part = seq![' '] + init_cap(local.subrange(from, dot));
        if dot >= local.len() || dot < from {
            part
        } else {
            part + shown_name(local, dot + 1)
        }
    }
}

/// The address and the name that a text stands for. A text without `<`
/// and with one `@` is an address, whose name is made from what is before
/// the `@`. A text with one `<` is a name followed by an address in angle
/// brackets. Anything else is no address.
pub open spec fn address_of(s: Seq<char>) -> Option<(Seq<char>, Seq<char>)> {
    let n = s.len() as int;
    if count_of(s, '<', n) == 0 {
        if count_of(s, '@', n) == 1 {
            Some((s, shown_name(s.subrange(0, index_of(s, '@', 0)), 0)))
        } else {
            None
        }
    } else if count_of(s, '<', n) == 1 {
        let open = index_of(s, '<', 0);
        let after = trimmed_of(s.subrange(open + 1, n));
        Some((without(after, '>', after.len() as int), trimmed_of(s.subrange(0, open))))
    } else {
        None
    }
}

/// The position that [`index_of`] gives lies from `from` to the length of
/// the text, and holds `c` where it lies within the text.
proof fn lemma_index_of_bounded(s: Seq<char>, c: char, from: int)
    requires
        0 <= from <= s.len(),
    ensures
        from <= index_of(s, c, from) <= s.len(),
        index_of(s, c, from) < s.len() ==> s[index_of(s, c, from)] == c,
    decreases s.len() - from,
{
    if from < s.len() && s[from] != c {
        lemma_index_of_bounded(s, c, from + 1);
    }
}

/// The characters of a text.
pub fn chars_of(s: &str) -> (r: Vec<char>)
    ensures
        r@ == s@,
{
    let n = s.unicode_len();
    let mut r: Vec<char> = Vec::new();
    let mut i: usize = 0;
    while i < n
        invariant
            n == s@.len(),
            i <= n,
            r@ == s@.subrange(0, i as int),
        decreases n - i,
    {
        r.push(s.get_char(i));
        assert(r@ =~= s@.subrange(0, i + 1));
        i += 1;
    }
    assert(s@.subrange(0, n as int) =~= s@);
    r
}

/// Counts how often `c` occurs in `s`.
pub fn count_char(s: &Vec<char>, c: char) -> (r: usize)
    ensures
        r == count_of(s@, c, s@.len() as int),
{
    let n = s.len();
    let mut r: usize = 0;
    let mut i: usize = 0;
    while i < n
        invariant
            n == s.len(),
            i <= n,
            r <= i,
            r == count_of(s@, c, i as int),
        decreases n - i,
    {
        if s[i] == c {
            r += 1;
        }
        i += 1;
    }
    r
}

/// Finds the first `c` in `s` at or after `from`; gives the length of `s`
/// where there is none.
pub fn find_char(s: &Vec<char>, c: char, from: usize) -> (r: usize)
    requires
        from <= s.len(),
    ensures
        r == index_of(s@, c, from as int),
        from <= r <= s.len(),
{
    let n = s.len();
    let mut i: usize = from;
    proof {
        lemma_index_of_bounded(s@, c, from as int);
    }
    while i < n && s[i] != c
        invariant
            n == s.len(),
            from <= i <= n,
            index_of(s@, c, i as int) == index_of(s@, c, from as int),
        decreases n - i,
    {
        i += 1;
    }
    i
}

/// Copies the characters of `s` from `from` up to `to`.
pub fn slice_chars(s: &Vec<char>, from: usize, to: usize) -> (r: Vec<char>)
    requires
        from <= to <= s.len(),
    ensures
        r@ == s@.subrange(from as int, to as int),
{
    let mut r: Vec<char> = Vec::new();
    let mut i: usize = from;
    while i < to
        invariant
            from <= i <= to <= s.len(),
            r@ == s@.subrange(from as int, i as int),
        decreases to - i,
    {
        r.push(s[i]);
        assert(r@ =~= s@.subrange(from as int, i + 1));
        i += 1;
    }
    r
}

/// Copies the characters of `s` that are not `c`.
pub fn remove_char(s: &Vec<char>, c: char) -> (r: Vec<char>)
    ensures
        r@ == without(s@, c, s@.len() as int),
{
    let n = s.len();
    let mut r: Vec<char> = Vec::new();
    let mut i: usize = 0;
    while i < n
        invariant
            n == s.len(),
            i <= n,
            r@ == without(s@, c, i as int),
        decreases n - i,
    {
        if s[i] != c {
            r.push(s[i]);
        }
        i += 1;
    }
    r
}

/// Makes the name that is shown for the part of an address before the `@`.
pub fn name_from_local(local: &Vec<char>) -> (r: Vec<char>)
    ensures
        r@ == shown_name(local@, 0),
{
    let n = local.len();
    let mut r: Vec<char> = Vec::new();
    let mut from: usize = 0;
    let mut done = false;
    while !done
        invariant
            n == local.len(),
            from <= n,
            done ==> r@ == shown_name(local@, 0),
            !done ==> r@ + shown_name(local@, from as int) == shown_name(local@, 0),
        decreases
                if done {
                    0int
                } else {
                    n - from + 1
                },
    {
        let ghost before = r@;
        let dot = find_char(local, '.', from);
        r.push(' ');
        if dot > from {
            let up = to_uppercase(local[from]);
            let mut up_chars = chars_of(up.as_str());
            r.append(&mut up_chars);
            let mut tail = slice_chars(local, from + 1, dot);
            r.append(&mut tail);
            assert(local@.subrange(from as int, dot as int).subrange(1, dot - from)
                =~= local@.subrange(from + 1, dot as int));
        }
        proof {
            let part = seq![' '] + init_cap(local@.subrange(from as int, dot as int));
            assert(r@ =~= before + part);
            if dot >= n {
                assert(shown_name(local@, from as int) == part);
            } else {
                assert(shown_name(local@, from as int) == part + shown_name(local@, dot + 1));
                assert(r@ + shown_name(local@, dot + 1) =~= before + shown_name(
                    local@,
                    from as int,
                ));
            }
        }
        if dot >= n {
            done = true;
        } else {
            from = dot + 1;
        }
    }
    r
}

impl Address {
    /// Reads an address from a text: either a plain address, whose name is
    /// then made from what is before the `@`, or a name followed by an
    /// address in angle brackets.
    pub fn from_str(s: &str) -> (r: Result<Address, MailError>)
        ensures
            match r {
                Ok(a) => address_of(s@) == Some((a.email@, a.name@)),
                Err(MailError::InvalidEmailAddress(e)) => address_of(s@).is_none() && e@ == s@,
                Err(_) => false,
            },
    {
        let chars = chars_of(s);
        let n = chars.len();
        let opens = count_char(&chars, '<');
        if opens == 0 {
            if count_char(&chars, '@') == 1 {
                let at = find_char(&chars, '@', 0);
                let local = slice_chars(&chars, 0, at);
                let name = name_from_local(&local);
                return Ok(Address { email: String::from_str(s), name: string_of(&name) });
            }
        } else if opens == 1 {
            let open = find_char(&chars, '<', 0);
            proof {
                lemma_index_of_bounded(chars@, '<', 0);
                lemma_count_none(chars@, '<', n as int);
            }
            let after = trim_chars(&slice_chars(&chars, open + 1, n));
            let email = remove_char(&after, '>');
            let name = trim_chars(&slice_chars(&chars, 0, open));
            return Ok(Address { email: string_of(&email), name: string_of(&name) });
        }
        Err(MailError::InvalidEmailAddress(String::from_str(s)))
    }
}

/// Where `c` does not occur among the first `n` characters of `s`, the
/// first `c` is not among them.
proof fn lemma_count_none(s: Seq<char>, c: char, n: int)
    requires
        0 <= n <= s.len(),
    ensures
        count_of(s, c, n) >= 0,
        count_of(s, c, n) > 0 ==> index_of(s, c, 0) < n,
    decreases n,
{
    if n > 0 {
        lemma_count_none(s, c, n - 1);
        lemma_index_of_first(s, c, 0, n - 1);
    }
}

/// The first `c` at or after `from` is no later than any `c` at `at`.
proof fn lemma_index_of_first(s: Seq<char>, c: char, from: int, at: int)
    requires
        0 <= from <= at < s.len(),
    ensures
        s[at] == c ==> index_of(s, c, from) <= at,
    decreases at - from,
{
    if from < at && s[from] != c {
        lemma_index_of_first(s, c, from + 1, at);
    }
}

impl Mail {
    /// Returns a new instance of the Mail struct.
    pub fn new(api_key: String, from: &str, to: &str) -> (r: Result<Mail, MailError>)
        ensures
            match r {
                Ok(m) => {
                    &&& m.api_key == api_key
                    &&& address_of(from@) == Some((m.from.email@, m.from.name@))
                    &&& address_of(to@) == Some((m.to.email@, m.to.name@))
                },
                Err(MailError::InvalidEmailAddress(e)) => if address_of(from@).is_none() {
                    e@ == from@
                } else {
                    address_of(to@).is_none() && e@ == to@
                },
                Err(_) => false,
            },
    {
        let from = match Address::from_str(from) {
            Ok(a) => a,
            Err(e) => {
                return Err(e);
            },
        };
        let to = match Address::from_str(to) {
            Ok(a) => a,
            Err(e) => {
                return Err(e);
            },
        };
        Ok(Mail { api_key, from, to })
    }

    /// Makes the mail with the given subject and body.
    pub fn send_mail(&self, subject: String, body: String) -> (r: Email)
        ensures
            r.subject == subject,
            r.from.email@ == self.from.email@,
            r.from.name@ == self.from.name@,
            r.personalizations@.len() == 1,
            r.personalizations@[0].to@.len() == 1,
            r.personalizations@[0].to@[0].email@ == self.to.email@,
            r.personalizations@[0].to@[0].name@ == self.to.name@,
            r.content@.len() == 1,
            r.content@[0].content_type@ == "text/plain"@,
            r.content@[0].value == body,
    {
        let mut to: Vec<Address> = Vec::new();
        to.push(Address { email: self.to.email.clone(), name: self.to.name.clone() });
        let mut personalizations: Vec<Personalizations> = Vec::new();
        personalizations.push(Personalizations { to });
        let mut content: Vec<Content> = Vec::new();
        content.push(Content { content_type: String::from_str("text/plain"), value: body });
        Email {
            personalizations,
            from: Address { email: self.from.email.clone(), name: self.from.name.clone() },
            subject,
            content,
        }
    }
}

} // verus!
