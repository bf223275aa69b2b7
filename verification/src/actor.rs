//! The people who author and commit changes.

use vstd::prelude::*;

use chrono::{DateTime, Utc};

use crate::error::{Error, ErrorView, GitError, GitErrorView};
use crate::git::{
    lemma_trim_crud_trailing, signature_accepts, signature_error, signature_new, trim_crud,
};
use crate::text::{
    chars_of, find_char_from, find_first, lemma_find_from_at, opt_as_str, opt_clone, opt_str_view,
    opt_view, substring,
};

verus! {

broadcast use vstd::string::group_string_axioms;

/// Whether chrono can represent the instant `secs` seconds after the UNIX
/// epoch: from `DateTime::<Utc>::MIN_UTC`, the first second of January 1 of
/// the year -262143, to `DateTime::<Utc>::MAX_UTC`, the last second of
/// December 31 of the year 262142.
pub open spec fn utc_secs_in_range(secs: i64) -> bool {
    -8_334_601_228_800 <= secs <= 8_210_266_876_799
}

/// Calls `chrono::DateTime::<Utc>::from_timestamp_secs(secs)` and reads the
/// date back with `DateTime::timestamp`.
///
/// Claimed: the date exists exactly when the seconds lie between chrono's
/// `MIN_UTC` and `MAX_UTC` (chrono turns the seconds into a day and a second
/// of that day, and the day must fall between `NaiveDate::MIN` and
/// `NaiveDate::MAX`), and it reads back as `secs`, which chrono documents as
/// guaranteed.
#[verifier::external_body]
fn utc_from_timestamp_secs(secs: i64) -> (r: Option<i64>)
    ensures
        r is Some <==> utc_secs_in_range(secs),
        r matches Some(t) ==> t == secs,
{
    DateTime::<Utc>::from_timestamp_secs(secs).map(|d| d.timestamp())
}

/// An instant in UTC that chrono can represent, counted in seconds since the
/// UNIX epoch.
#[derive(Debug, Clone, Copy, PartialEq, Eq)]
pub struct UtcTime {
    seconds: i64,
}

impl UtcTime {
    /// The instant as seconds since the UNIX epoch.
    pub closed spec fn secs(&self) -> i64 {
        self.seconds
    }

    /// Every instant held is one that chrono can represent.
    #[verifier::type_invariant]
    spec fn within_chrono_range(&self) -> bool {
        utc_secs_in_range(self.seconds)
    }

    /// Return the number of non-leap seconds since the UNIX epoch
    pub fn timestamp(&self) -> (r: i64)
        ensures
            r == self.secs(),
            utc_secs_in_range(r),
    {
        proof {
            use_type_invariant(self);
        }
        self.seconds
    }

    /// The instant `secs` seconds after the UNIX epoch, where chrono can
    /// represent it.
    pub fn from_timestamp_secs(secs: i64) -> (r: Option<UtcTime>)
        ensures
            r is Some <==> utc_secs_in_range(secs),
            r matches Some(t) ==> t.secs() == secs,
    {
        match utc_from_timestamp_secs(secs) {
            Some(t) => Some(UtcTime { seconds: t }),
            None => None,
        }
    }
}

/// A git actor: the name, email and time of whoever authored or committed a change.
#[derive(Debug)]
pub struct Actor {
    name: Option<String>,
    email: Option<String>,
    seconds: i64,
    offset: i32,
}

/// The mathematical value of an [`Actor`].
pub struct ActorView {
    pub name: Option<Seq<char>>,
    pub email: Option<Seq<char>>,
    /// Seconds since the UNIX epoch.
    pub seconds: i64,
    /// Offset of the actor's time zone from UTC, in minutes.
    pub offset: i32,
}

impl View for Actor {
    type V = ActorView;

    closed spec fn view(&self) -> ActorView {
        ActorView {
            name: opt_view(self.name),
            email: opt_view(self.email),
            seconds: self.seconds,
            offset: self.offset,
        }
    }
}

impl Clone for Actor {
    fn clone(&self) -> (r: Self)
        ensures
            r@ == self@,
    {
        Actor {
            name: opt_clone(&self.name),
            email: opt_clone(&self.email),
            seconds: self.seconds,
            offset: self.offset,
        }
    }
}

/// The message of the error for a string that is not of the form `name <email>`.
pub open spec fn malformed_actor_message() -> Seq<char> {
    "malformed actor: expected 'name <email>'"@
}

/// The error for a string that is not of the form `name <email>`.
pub open spec fn malformed_actor_error() -> ErrorView {
    ErrorView::Git(GitErrorView { code: -1i32, class: 0i32, message: malformed_actor_message() })
}

/// The positions of the first `<` and of the first `>` in `s`, where both occur
/// and the `<` comes first.
pub open spec fn actor_brackets(s: Seq<char>) -> Option<(int, int)> {
    match (find_first(s, '<'), find_first(s, '>')) {
        (Some(a), Some(b)) => if a < b {
            Some((a, b))
        } else {
            None
        },
        _ => None,
    }
}

/// The mathematical value of the outcome of reading an actor.
pub open spec fn actor_result_view(r: Result<Actor, Error>) -> Result<ActorView, ErrorView> {
    match r {
        Ok(a) => Ok(a@),
        Err(e) => Err(e@),
    }
}

/// What reading the actor string `s` gives: the name before the first `<` and
/// the email between it and the first `>`, both trimmed, at the UNIX epoch in
/// UTC; the malformed-actor error where the brackets are missing or reversed;
/// and git's error where git refuses the name or the email.
pub open spec fn parses_actor(s: Seq<char>, r: Result<ActorView, ErrorView>) -> bool {
    match actor_brackets(s) {
        None => r == Err::<ActorView, ErrorView>(malformed_actor_error()),
        Some((a, b)) => {
            let name = s.subrange(0, a);
            let email = s.subrange(a + 1, b);
            &&& r is Ok <==> signature_accepts(name, email)
            &&& r matches Ok(actor) ==> actor == ActorView {
                name: Some(trim_crud(name)),
                email: Some(trim_crud(email)),
                seconds: 0,
                offset: 0,
            }
            &&& r matches Err(e) ==> e == ErrorView::Git(signature_error(name, email))
        },
    }
}

/// The `name <email>` form of an actor, in which commits and trailers name people.
pub open spec fn actor_string(name: Seq<char>, email: Seq<char>) -> Seq<char> {
    name + seq![' ', '<'] + email + seq!['>']
}

/// Reading back the `name <email>` form of an actor whose name and email git
/// accepts as they are gives that actor, at the UNIX epoch in UTC.
pub proof fn lemma_actor_string_round_trip(name: Seq<char>, email: Seq<char>)
    requires
        signature_accepts(name, email),
        trim_crud(name) == name,
        trim_crud(email) == email,
    ensures
        parses_actor(
            actor_string(name, email),
            Ok(ActorView { name: Some(name), email: Some(email), seconds: 0, offset: 0 }),
        ),
{
    let s = actor_string(name, email);
    let a: int = name.len() as int + 1;
    let b: int = name.len() as int + 2 + email.len() as int;
    assert(s[a] == '<');
    assert(s[b] == '>');
    assert forall|j: int| 0 <= j < a implies s[j] != '<' by {
        if j < name.len() {
            assert(name[j] == s[j]);
        }
    }
    assert forall|j: int| 0 <= j < b implies s[j] != '>' by {
        if j < name.len() {
            assert(name[j] == s[j]);
        } else if a < j {
            assert(email[j - a - 1] == s[j]);
        }
    }
    lemma_find_from_at(s, '<', 0, a);
    lemma_find_from_at(s, '>', 0, b);
    let name_part = s.subrange(0, a);
    let email_part = s.subrange(a + 1, b);
    assert(name_part =~= name.push(' '));
    assert(email_part =~= email);
    lemma_trim_crud_trailing(name, ' ');
    assert(!name_part.contains('\0') && !name_part.contains('<') && !name_part.contains('>')) by {
        assert forall|c: char| c != ' ' && name_part.contains(c) implies name.contains(c) by {
            let k = choose|k: int| 0 <= k < name_part.len() && name_part[k] == c;
            assert(name[k] == c);
        }
    }
}

/// Reading an actor from `s` splits it at its first `<` and its first `>`:
/// where the `<` comes first and git accepts the parts, the name is the whole
/// text before the `<` and the email the whole text between the two, each as
/// git trims it, dated at the UNIX epoch; where git refuses the parts, the
/// error is git's; and without such brackets, `s` is malformed.
pub proof fn lemma_actor_reads_around_first_brackets(s: Seq<char>, r: Result<ActorView, ErrorView>)
    requires
        parses_actor(s, r),
    ensures
        match (find_first(s, '<'), find_first(s, '>')) {
            (Some(a), Some(b)) => if a < b {
                &&& signature_accepts(s.subrange(0, a), s.subrange(a + 1, b))
                    ==> r == Ok::<ActorView, ErrorView>(
                    ActorView {
                        name: Some(trim_crud(s.subrange(0, a))),
                        email: Some(trim_crud(s.subrange(a + 1, b))),
                        seconds: 0,
                        offset: 0,
                    },
                )
                &&& !signature_accepts(s.subrange(0, a), s.subrange(a + 1, b))
                    ==> r == Err::<ActorView, ErrorView>(
                    ErrorView::Git(signature_error(s.subrange(0, a), s.subrange(a + 1, b))),
                )
            } else {
                r == Err::<ActorView, ErrorView>(malformed_actor_error())
            },
            _ => r == Err::<ActorView, ErrorView>(malformed_actor_error()),
        },
{
}

/// An actor written `name<email>`, with no space before the `<`, reads back
/// as that name and email where git accepts them as they are.
pub proof fn lemma_actor_without_space_round_trip(
    name: Seq<char>,
    email: Seq<char>,
    r: Result<ActorView, ErrorView>,
)
    requires
        signature_accepts(name, email),
        trim_crud(name) == name,
        trim_crud(email) == email,
        parses_actor(name + seq!['<'] + email + seq!['>'], r),
    ensures
        r == Ok::<ActorView, ErrorView>(
            ActorView { name: Some(name), email: Some(email), seconds: 0, offset: 0 },
        ),
{
    let s = name + seq!['<'] + email + seq!['>'];
    let a: int = name.len() as int;
    let b: int = name.len() as int + 1 + email.len() as int;
    assert(s[a] == '<');
    assert(s[b] == '>');
    assert forall|j: int| 0 <= j < a implies s[j] != '<' by {
        assert(name[j] == s[j]);
    }
    assert forall|j: int| 0 <= j < b implies s[j] != '>' by {
        if j < a {
            assert(name[j] == s[j]);
        } else if a < j {
            assert(email[j - a - 1] == s[j]);
        }
    }
    lemma_find_from_at(s, '<', 0, a);
    lemma_find_from_at(s, '>', 0, b);
    assert(s.subrange(0, a) =~= name);
    assert(s.subrange(a + 1, b) =~= email);
}

impl Actor {
    /// Instantiate a new Actor from the parts of a signature.
    pub fn new(name: Option<String>, email: Option<String>, seconds: i64, offset: i32) -> (r:
        Actor)
        ensures
            r@ == (ActorView {
                name: opt_view(name),
                email: opt_view(email),
                seconds,
                offset,
            }),
    {
        Actor { name, email, seconds, offset }
    }

    /// Instantiate an Actor from an author string.
    ///
    /// Input is expected to be of the form "name <email>". As no time
    /// information necessarily exists, the actor's signature is taken to have
    /// been created at the UNIX epoch, in UTC.
    pub fn from_str(s: &str) -> (r: Result<Actor, Error>)
        ensures
            parses_actor(s@, actor_result_view(r)),
    {
        let chars = chars_of(s);
        let start = find_char_from(&chars, '<', 0);
        let end = find_char_from(&chars, '>', 0);
        match (start, end) {
            (Some(a), Some(b)) => {
                if a >= b {
                    return Err(Self::malformed());
                }
                let name = substring(s, 0, a);
                let email = substring(s, a + 1, b);
                match signature_new(name.as_str(), email.as_str(), 0, 0) {
                    Ok(actor) => Ok(actor),
                    Err(e) => Err(Error::Git(e)),
                }
            },
            _ => Err(Self::malformed()),
        }
    }

    /// The error for a string that is not of the form `name <email>`.
    fn malformed() -> (e: Error)
        ensures
            e@ == malformed_actor_error(),
    {
        Error::Git(
            GitError {
                code: -1,
                class: 0,
                message: "malformed actor: expected 'name <email>'".to_string(),
            },
        )
    }

    /// Return the actor's name if it exists
    pub fn name(&self) -> (r: Option<&str>)
        ensures
            opt_str_view(r) == self@.name,
    {
        opt_as_str(&self.name)
    }

    /// Return the actor's email if it exists
    pub fn email(&self) -> (r: Option<&str>)
        ensures
            opt_str_view(r) == self@.email,
    {
        opt_as_str(&self.email)
    }

    /// Return the timestamp of the actor's action if chrono can represent it
    pub fn timestamp(&self) -> (r: Option<UtcTime>)
        ensures
            r is Some <==> utc_secs_in_range(self@.seconds),
            r matches Some(t) ==> t.secs() == self@.seconds,
    {
        UtcTime::from_timestamp_secs(self.seconds)
    }

    /// Return the offset from the UTC timestamp in minutes
    pub fn offset(&self) -> (r: i32)
        ensures
            r == self@.offset,
    {
        self.offset
    }

    /// Return the seconds since the UNIX epoch of the actor's action
    pub fn seconds(&self) -> (r: i64)
        ensures
            r == self@.seconds,
    {
        self.seconds
    }
}

impl core::str::FromStr for Actor {
    type Err = Error;

    fn from_str(s: &str) -> (r: Result<Actor, Error>)
        ensures
            parses_actor(s@, actor_result_view(r)),
    {
        Actor::from_str(s)
    }
}

/// What can be mined of an actor.
pub trait MinedActor {
    /// The actor's name, if it has one.
    spec fn actor_name(&self) -> Option<Seq<char>>;

    /// The actor's email, if it has one.
    spec fn actor_email(&self) -> Option<Seq<char>>;

    /// The seconds since the UNIX epoch of the actor's action, if it has a timestamp.
    spec fn actor_time(&self) -> Option<i64>;

    /// Return the actor's name if it exists
    fn name(&self) -> (r: Option<String>)
        ensures
            opt_view(r) == self.actor_name(),
    ;

    /// Return the actor's email if it exists
    fn email(&self) -> (r: Option<String>)
        ensures
            opt_view(r) == self.actor_email(),
    ;

    /// Return the timestamp of the actor's action (authorship/commit)
    fn timestamp(&self) -> (r: Option<UtcTime>)
        ensures
            match self.actor_time() {
                Some(t) => r matches Some(u) && u.secs() == t,
                None => r is None,
            },
    ;
}

impl MinedActor for Actor {
    open spec fn actor_name(&self) -> Option<Seq<char>> {
        self@.name
    }

    open spec fn actor_email(&self) -> Option<Seq<char>> {
        self@.email
    }

    open spec fn actor_time(&self) -> Option<i64> {
        if utc_secs_in_range(self@.seconds) {
            Some(self@.seconds)
        } else {
            None
        }
    }

    fn name(&self) -> Option<String> {
        opt_clone(&self.name)
    }

    fn email(&self) -> Option<String> {
        opt_clone(&self.email)
    }

    fn timestamp(&self) -> Option<UtcTime> {
        UtcTime::from_timestamp_secs(self.seconds)
    }
}

} // verus!
