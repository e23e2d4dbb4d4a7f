//! The producer's side: its session id and the lines it sends.

use vstd::prelude::*;
use rand::Rng;
use crate::broker::{connect_prefix, handshake_line};
use crate::event::{end_word, frame, frame_line};
use crate::text::{decimal, decimal_string};

verus! {

/// An ASCII letter or digit.
pub open spec fn is_alphanumeric(c: char) -> bool {
    (48 <= c as u32 <= 57) || (65 <= c as u32 <= 90) || (97 <= c as u32 <= 122)
}

/// A session id made of `base` and the time of connection in seconds since
/// the epoch: `<base>_<secs>`.
pub open spec fn id_string(base: Seq<char>, secs: nat) -> Seq<char> {
    base + seq!['_'] + decimal(secs)
}

/// Relies on `rand::thread_rng` and `Rng::sample_iter` with
/// `rand::distributions::Alphanumeric` (rand 0.7): `n` characters are drawn,
/// each one of `A-Z`, `a-z`, `0-9`.
#[verifier::external_body]
fn random_alphanumeric(n: usize) -> (r: String)
    ensures
        r@.len() == n,
        forall|i: int| 0 <= i < n ==> is_alphanumeric(#[trigger] r@[i]),
{
    rand::thread_rng().sample_iter(rand::distributions::Alphanumeric).take(n).collect()
}

/// Joins a base name and a time into a session id.
pub fn join_id(base: &str, secs: u64) -> (r: String)
    ensures
        r@ == id_string(base@, secs as nat),
{
    let under = "_";
    proof {
        reveal_strlit("_");
    }
    let r = String::from_str(base).concat(under).concat(decimal_string(secs).as_str());
    assert(r@ =~= id_string(base@, secs as nat));
    r
}

/// The session id for a producer: its name if it has one, else ten random
/// letters and digits, followed by `_` and the time in seconds.
pub fn make_id_string(name: Option<String>, secs: u64) -> (r: String)
    ensures
        match name {
            Some(n) => r@ == id_string(n@, secs as nat),
            None => exists|b: Seq<char>|
                b.len() == 10 && (forall|i: int| 0 <= i < 10 ==> is_alphanumeric(#[trigger] b[i]))
                    && r@ == id_string(b, secs as nat),
        },
{
    match name {
        Some(n) => join_id(n.as_str(), secs),
        None => {
            let b = random_alphanumeric(10);
            join_id(b.as_str(), secs)
        },
    }
}

/// A producer that streams its input to the collector on `socket`.
pub struct StdinHandle {
    socket: String,
    quite: bool,
}

impl StdinHandle {
    pub closed spec fn socket_spec(&self) -> Seq<char> {
        self.socket@
    }

    pub closed spec fn quiet_spec(&self) -> bool {
        self.quite
    }

    pub fn new(socket: String, quite: bool) -> (r: StdinHandle)
        ensures
            r.socket_spec() == socket@,
            r.quiet_spec() == quite,
    {
        StdinHandle { socket, quite }
    }

    pub fn socket(&self) -> (r: String)
        ensures
            r@ == self.socket_spec(),
    {
        self.socket.clone()
    }

    pub fn quiet(&self) -> (r: bool)
        ensures
            r == self.quiet_spec(),
    {
        self.quite
    }

    /// The first line sent, without its line break: `connect -ID- <id>`.
    pub fn handshake(&self, id: &str) -> (r: String)
        ensures
            r@ == connect_prefix() + id@,
    {
        handshake_line(id)
    }

    /// The line sent for one line of input, without its line break.
    pub fn data_line(&self, id: &str, line: &str) -> (r: String)
        ensures
            r@ == frame(id@, line@),
    {
        frame_line(id, line)
    }

    /// The last line sent, without its line break: `end`.
    pub fn end_line(&self) -> (r: String)
        ensures
            r@ == end_word(),
    {
        let end = "end";
        proof {
            reveal_strlit("end");
        }
        assert(end@ =~= end_word());
        String::from_str(end)
    }
}

} // verus!
