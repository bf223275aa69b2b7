//! The calls into `git2` that the library's logic makes, with what they promise.

use vstd::prelude::*;

use crate::actor::{Actor, ActorView};
use crate::error::{GitError, GitErrorView};

verus! {

/// The kind of change that a file went through in a diff (`git2::Delta`).
#[verifier::external_type_specification]
#[verifier::external_body]
pub struct ExDelta(git2::Delta);

/// Whether libgit2 trims `c` from the ends of a signature's name or email: the
/// control characters, the space, and `,` `:` `;` `<` `>` `"` `\` `'`.
pub open spec fn is_crud(c: char) -> bool {
    ||| (c as u32) <= 32
    ||| c == ','
    ||| c == ':'
    ||| c == ';'
    ||| c == '<'
    ||| c == '>'
    ||| c == '"'
    ||| c == '\\'
    ||| c == '\''
}

/// `s` without the crud at its start.
pub open spec fn trim_crud_start(s: Seq<char>) -> Seq<char>
    decreases s.len(),
{
    if s.len() > 0 && is_crud(s[0]) {
        trim_crud_start(s.drop_first())
    } else {
        s
    }
}

/// `s` without the crud at its end.
pub open spec fn trim_crud_end(s: Seq<char>) -> Seq<char>
    decreases s.len(),
{
    if s.len() > 0 && is_crud(s.last()) {
        trim_crud_end(s.drop_last())
    } else {
        s
    }
}

/// `s` without crud at either end, as libgit2 stores a signature's name and email.
pub open spec fn trim_crud(s: Seq<char>) -> Seq<char> {
    trim_crud_end(trim_crud_start(s))
}

/// Trimming the start of a concatenation trims into the second part only when
/// the first part is all crud.
pub proof fn lemma_trim_crud_start_concat(x: Seq<char>, y: Seq<char>)
    ensures
        trim_crud_start(x + y) == if trim_crud_start(x).len() > 0 {
            trim_crud_start(x) + y
        } else {
            trim_crud_start(y)
        },
    decreases x.len(),
{
    if x.len() == 0 {
        assert(x + y =~= y);
    } else {
        assert((x + y)[0] == x[0]);
        if is_crud(x[0]) {
            assert((x + y).drop_first() =~= x.drop_first() + y);
            lemma_trim_crud_start_concat(x.drop_first(), y);
        }
    }
}

/// Trailing crud does not change what a name or an email trims to.
pub proof fn lemma_trim_crud_trailing(x: Seq<char>, c: char)
    requires
        is_crud(c),
    ensures
        trim_crud(x.push(c)) == trim_crud(x),
{
    lemma_trim_crud_start_concat(x, seq![c]);
    assert(x + seq![c] =~= x.push(c));
    let t = trim_crud_start(x);
    if t.len() > 0 {
        assert(t + seq![c] =~= t.push(c));
        assert(t.push(c).drop_last() =~= t);
    } else {
        assert(seq![c].drop_first() =~= Seq::<char>::empty());
        assert(trim_crud_start(seq![c]) == trim_crud_start(Seq::<char>::empty()));
    }
}

/// Whether git accepts `name` and `email` for a signature: neither holds a NUL
/// or an angle bracket, and neither is empty once trimmed.
pub open spec fn signature_accepts(name: Seq<char>, email: Seq<char>) -> bool {
    &&& !name.contains('\0')
    &&& !email.contains('\0')
    &&& !name.contains('<')
    &&& !name.contains('>')
    &&& !email.contains('<')
    &&& !email.contains('>')
    &&& trim_crud(name).len() > 0
    &&& trim_crud(email).len() > 0
}

/// Whether `c` is a hexadecimal digit.
pub open spec fn is_hex_digit(c: char) -> bool {
    ('0' <= c && c <= '9') || ('a' <= c && c <= 'f') || ('A' <= c && c <= 'F')
}

/// `c` in lower case, where it is an upper-case hexadecimal letter.
pub open spec fn hex_lower(c: char) -> char {
    if 'A' <= c && c <= 'F' {
        ((c as u32) + 32) as char
    } else {
        c
    }
}

/// Whether git reads `s` as an abbreviated or full object id: one to forty
/// hexadecimal digits.
pub open spec fn is_oid_prefix(s: Seq<char>) -> bool {
    &&& 1 <= s.len() <= 40
    &&& forall|i: int| 0 <= i < s.len() ==> is_hex_digit(#[trigger] s[i])
}

/// The forty lower-case hexadecimal digits of the object id that git reads from
/// `s`: the digits of `s`, followed by zeros.
pub open spec fn oid_hex(s: Seq<char>) -> Seq<char> {
    Seq::new(40, |i: int| if i < s.len() { hex_lower(s[i]) } else { '0' })
}

/// The error that git gives where it refuses `name` and `email` for a
/// signature: a NUL byte is refused as the strings are handed to C (a generic
/// error, class none); angle brackets, and a name or email that is empty once
/// trimmed, are refused by libgit2 (class invalid).
pub open spec fn signature_error(name: Seq<char>, email: Seq<char>) -> GitErrorView {
    if name.contains('\0') || email.contains('\0') {
        GitErrorView {
            code: -1i32,
            class: 0i32,
            message: "data contained a nul byte that could not be represented as a string"@,
        }
    } else if name.contains('<') || name.contains('>') || email.contains('<') || email.contains(
        '>',
    ) {
        GitErrorView {
            code: -1i32,
            class: 3i32,
            message: "failed to parse signature - Neither `name` nor `email` should contain angle brackets chars."@,
        }
    } else {
        GitErrorView {
            code: -1i32,
            class: 3i32,
            message: "failed to parse signature - Signature cannot have an empty name or email"@,
        }
    }
}

/// The number of bytes that `c` takes in UTF-8.
pub open spec fn utf8_width(c: char) -> nat {
    if (c as u32) < 0x80 {
        1
    } else if (c as u32) < 0x800 {
        2
    } else if (c as u32) < 0x10000 {
        3
    } else {
        4
    }
}

/// The number of bytes that `s` takes in UTF-8.
pub open spec fn utf8_len(s: Seq<char>) -> nat
    decreases s.len(),
{
    if s.len() == 0 {
        0
    } else {
        utf8_len(s.drop_last()) + utf8_width(s.last())
    }
}

/// The error that git gives where it refuses `s` as an object id: libgit2
/// checks the length in bytes, then each byte (class invalid).
pub open spec fn oid_error(s: Seq<char>) -> GitErrorView {
    GitErrorView {
        code: -1i32,
        class: 3i32,
        message: if s.len() == 0 {
            "unable to parse OID - too short"@
        } else if utf8_len(s) > 40 {
            "unable to parse OID - too long"@
        } else {
            "unable to parse OID - contains invalid characters"@
        },
    }
}

/// Calls `git2::Signature::new(name, email, &git2::Time::new(seconds, offset))`
/// and reads the signature back as an actor.
///
/// Claimed: the call succeeds exactly when `signature_accepts(name, email)`
/// (NUL bytes are refused when the strings are handed to C; libgit2 refuses
/// angle brackets and names or emails that are empty once trimmed), and the
/// signature then holds the trimmed name and email and the given time;
/// otherwise the error is `signature_error(name, email)`: git2's own error for
/// a NUL byte (`CString::new` fails first), or the one that libgit2 sets before
/// it returns -1.
/// Not stated: the failures of the machine (libgit2 failing to initialise or
/// to allocate), which the claims above set aside.
#[verifier::external_body]
pub(crate) fn signature_new(name: &str, email: &str, seconds: i64, offset: i32) -> (r: Result<
    Actor,
    GitError,
>)
    ensures
        r is Ok <==> signature_accepts(name@, email@),
        r matches Ok(a) ==> a@ == (ActorView {
            name: Some(trim_crud(name@)),
            email: Some(trim_crud(email@)),
            seconds,
            offset,
        }),
        r matches Err(e) ==> e@ == signature_error(name@, email@),
{
    let time = git2::Time::new(seconds, offset);
    let read = |s: &str| s.to_string();
    match git2::Signature::new(name, email, &time) {
        Ok(sig) => {
            let (n, e, when) = (sig.name().ok().map(read), sig.email().ok().map(read), sig.when());
            Ok(Actor::new(n, e, when.seconds(), when.offset_minutes()))
        },
        Err(e) => Err(GitError {
            code: e.raw_code() as i32,
            class: e.raw_class() as i32,
            message: e.message().to_string(),
        }),
    }
}

/// Calls `git2::Oid::from_str(s)` and renders the id with `Oid::to_string`.
///
/// Claimed: the call succeeds exactly when `s` is one to forty hexadecimal
/// digits, and the id then reads as those digits in lower case followed by
/// zeros up to forty digits; otherwise the error is `oid_error(s)`, the one
/// that libgit2 sets before it returns -1: too short where `s` is empty, too
/// long where it takes more than forty bytes, and invalid characters otherwise.
/// Not stated: the failure of libgit2 to initialise, which the claims above set
/// aside.
#[verifier::external_body]
pub(crate) fn oid_from_str(s: &str) -> (r: Result<String, GitError>)
    ensures
        r is Ok <==> is_oid_prefix(s@),
        r matches Ok(h) ==> h@ == oid_hex(s@),
        r matches Err(e) ==> e@ == oid_error(s@),
{
    match git2::Oid::from_str(s) {
        Ok(oid) => Ok(oid.to_string()),
        Err(e) => Err(GitError {
            code: e.raw_code() as i32,
            class: e.raw_class() as i32,
            message: e.message().to_string(),
        }),
    }
}

} // verus!
