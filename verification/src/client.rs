//! The operator-side client: parsing of its command lines.
//!
//! A line names either a forward request, `get <hostname> <port>
//! <local_port>`, or the creation of a standard client, `add_usr <username>
//! <token>`.  Trailing line terminators are trimmed, the line splits on
//! single spaces, and ports are decimal.  The surrounding prompt loop and
//! every socket live outside; they hand lines in as bytes.

use vstd::prelude::*;
use vstd::slice::{slice_subrange, slice_to_vec};

verus! {

/// The operator-side client.
pub struct Client {}

/// What one operator line asks for.
#[derive(Debug, Clone, PartialEq, Eq)]
pub enum ClientDirective {
    /// Request a forward: splice `port` of the named node to the local
    /// port.
    Get { hostname: Vec<u8>, port: u32, local_port: u32 },
    /// Create a standard client under the given name and token.
    AddUser { username: Vec<u8>, token: Vec<u8> },
    /// Anything else.
    Unknown,
}

/// The mathematical shape of a directive: its fields as sequences.
pub enum ClientDirectiveModel {
    Get { hostname: Seq<u8>, port: u32, local_port: u32 },
    AddUser { username: Seq<u8>, token: Seq<u8> },
    Unknown,
}

impl View for ClientDirective {
    type V = ClientDirectiveModel;

    open spec fn view(&self) -> ClientDirectiveModel {
        match self {
            ClientDirective::Get { hostname, port, local_port } => ClientDirectiveModel::Get {
                hostname: hostname@,
                port: *port,
                local_port: *local_port,
            },
            ClientDirective::AddUser { username, token } => ClientDirectiveModel::AddUser {
                username: username@,
                token: token@,
            },
            ClientDirective::Unknown => ClientDirectiveModel::Unknown,
        }
    }
}

/// The line without its trailing terminators (line feed, carriage return).
pub open spec fn spec_trim_line(s: Seq<u8>) -> Seq<u8>
    decreases s.len(),
{
    if s.len() > 0 && (s.last() == 10 || s.last() == 13) {
        spec_trim_line(s.drop_last())
    } else {
        s
    }
}

/// Where the token starting at `i` ends: at the first space, or the end.
pub open spec fn spec_token_end(s: Seq<u8>, i: int) -> int
    decreases s.len() - i when 0 <= i <= s.len()
{
    if i >= s.len() {
        i
    } else if s[i] == 32 {
        i
    } else {
        spec_token_end(s, i + 1)
    }
}

proof fn lemma_token_end_bounds(s: Seq<u8>, i: int)
    requires
        0 <= i <= s.len(),
    ensures
        i <= spec_token_end(s, i) <= s.len(),
    decreases s.len() - i,
{
    if i < s.len() && s[i] != 32 {
        lemma_token_end_bounds(s, i + 1);
    }
}

/// The tokens of `s` from offset `i` on, split on single spaces; adjacent
/// spaces yield empty tokens, as does a trailing one.
pub open spec fn spec_tokens(s: Seq<u8>, i: int) -> Seq<Seq<u8>>
    decreases s.len() - i when 0 <= i <= s.len() via spec_tokens_decreases
{
    let e = spec_token_end(s, i);
    if e >= s.len() {
        seq![s.subrange(i, e)]
    } else {
        seq![s.subrange(i, e)] + spec_tokens(s, e + 1)
    }
}

#[via_fn]
proof fn spec_tokens_decreases(s: Seq<u8>, i: int) {
    lemma_token_end_bounds(s, i);
}

fn token_end(s: &[u8], i: usize) -> (e: usize)
    requires
        i <= s@.len(),
    ensures
        e as int == spec_token_end(s@, i as int),
        i <= e <= s@.len(),
{
    let n = s.len();
    let mut j = i;
    while j < n && s[j] != 32
        invariant
            i <= j <= n,
            n == s@.len(),
            spec_token_end(s@, i as int) == spec_token_end(s@, j as int),
        decreases n - j,
    {
        j += 1;
    }
    j
}

/// Splits a line into its tokens, on single spaces.
pub fn split_spaces(s: &[u8]) -> (r: Vec<Vec<u8>>)
    ensures
        r.deep_view() == spec_tokens(s@, 0),
{
    let n = s.len();
    let mut out: Vec<Vec<u8>> = Vec::new();
    let mut i: usize = 0;
    loop
        invariant_except_break
            spec_tokens(s@, 0) == out.deep_view() + spec_tokens(s@, i as int),
        invariant
            i <= n,
            n == s@.len(),
        ensures
            out.deep_view() == spec_tokens(s@, 0),
        decreases n - i,
    {
        let e = token_end(s, i);
        let token = slice_to_vec(slice_subrange(s, i, e));
        let ghost prior = out.deep_view();
        out.push(token);
        proof {
            assert(out.deep_view() =~~= prior + seq![s@.subrange(i as int, e as int)]);
        }
        if e == n {
            proof {
                assert(spec_tokens(s@, i as int) =~~= seq![s@.subrange(i as int, e as int)]);
                assert(out.deep_view() =~~= spec_tokens(s@, 0));
            }
            break;
        }
        i = e + 1;
        proof {
            assert(spec_tokens(s@, 0) =~~= out.deep_view() + spec_tokens(s@, i as int));
        }
    }
    out
}

/// Whether every byte is a decimal digit; an empty run does not count.
pub open spec fn spec_all_digits(s: Seq<u8>) -> bool {
    s.len() > 0 && forall|k: int| 0 <= k < s.len() ==> 48 <= #[trigger] s[k] <= 57
}

/// The value of a run of decimal digits, most significant first.
pub open spec fn spec_digits_value(s: Seq<u8>) -> int
    decreases s.len(),
{
    if s.len() == 0 {
        0
    } else {
        spec_digits_value(s.drop_last()) * 10 + (s.last() - 48)
    }
}

/// What a decimal token denotes as a u32: its value, when the token is all
/// digits and the value fits.
pub open spec fn spec_parse_u32(s: Seq<u8>) -> Option<u32> {
    if spec_all_digits(s) && 0 <= spec_digits_value(s) <= u32::MAX {
        Some(spec_digits_value(s) as u32)
    } else {
        None
    }
}

/// A run of digits has a non-negative value.
proof fn lemma_digits_value_nonneg(s: Seq<u8>)
    requires
        forall|k: int| 0 <= k < s.len() ==> 48 <= #[trigger] s[k],
    ensures
        spec_digits_value(s) >= 0,
    decreases s.len(),
{
    if s.len() > 0 {
        assert forall|k: int| 0 <= k < s.drop_last().len() implies 48 <= #[trigger] s.drop_last()[k] by {
            assert(s.drop_last()[k] == s[k]);
        }
        lemma_digits_value_nonneg(s.drop_last());
        let prev = spec_digits_value(s.drop_last());
        assert(prev * 10 + (s.last() - 48) >= 0) by (nonlinear_arith)
            requires
                prev >= 0,
                48 <= s.last(),
        ;
    }
}

/// A longer digit run never has a smaller value.
proof fn lemma_digits_value_grows(s: Seq<u8>, i: int)
    requires
        0 <= i <= s.len(),
        spec_all_digits(s),
    ensures
        spec_digits_value(s.take(i)) <= spec_digits_value(s),
    decreases s.len() - i,
{
    if i < s.len() {
        lemma_digits_value_grows(s, i + 1);
        let t = s.take(i + 1);
        assert(t.drop_last() =~= s.take(i));
        assert forall|k: int| 0 <= k < s.take(i).len() implies 48 <= #[trigger] s.take(i)[k] by {
            assert(s.take(i)[k] == s[k]);
        }
        lemma_digits_value_nonneg(s.take(i));
        let prev = spec_digits_value(s.take(i));
        assert(prev <= prev * 10 + (t.last() - 48)) by (nonlinear_arith)
            requires
                48 <= t.last() <= 57,
                prev >= 0,
        ;
    } else {
        assert(s.take(i) =~= s);
    }
}

/// Parses a decimal u32, exactly as `spec_parse_u32` reads the bytes.
pub fn parse_u32_dec(s: &[u8]) -> (r: Option<u32>)
    ensures
        r == spec_parse_u32(s@),
{
    let n = s.len();
    if n == 0 {
        return None;
    }
    let mut acc: u32 = 0;
    let mut i: usize = 0;
    while i < n
        invariant
            i <= n,
            n == s@.len(),
            n > 0,
            forall|k: int| 0 <= k < i ==> 48 <= #[trigger] s@[k] <= 57,
            acc == spec_digits_value(s@.take(i as int)),
        decreases n - i,
    {
        let c = s[i];
        if c < 48 || c > 57 {
            return None;
        }
        let wide: u64 = (acc as u64) * 10 + ((c - 48) as u64);
        if wide > u32::MAX as u64 {
            proof {
                assert(s@.take(i as int + 1).drop_last() =~= s@.take(i as int));
                if spec_all_digits(s@) {
                    lemma_digits_value_grows(s@, i as int + 1);
                }
            }
            return None;
        }
        acc = wide as u32;
        proof {
            assert(s@.take(i as int + 1).drop_last() =~= s@.take(i as int));
        }
        i += 1;
    }
    proof {
        assert(s@.take(n as int) =~= s@);
    }
    Some(acc)
}

/// The keyword `get`, as bytes.
pub open spec fn spec_is_get(t: Seq<u8>) -> bool {
    t =~= seq![103u8, 101u8, 116u8]
}

/// The keyword `add_usr`, as bytes.
pub open spec fn spec_is_add_usr(t: Seq<u8>) -> bool {
    t =~= seq![97u8, 100u8, 100u8, 95u8, 117u8, 115u8, 114u8]
}

fn is_get(t: &[u8]) -> (r: bool)
    ensures
        r == spec_is_get(t@),
{
    t.len() == 3 && t[0] == 103 && t[1] == 101 && t[2] == 116
}

fn is_add_usr(t: &[u8]) -> (r: bool)
    ensures
        r == spec_is_add_usr(t@),
{
    t.len() == 7 && t[0] == 97 && t[1] == 100 && t[2] == 100 && t[3] == 95 && t[4] == 117 && t[5]
        == 115 && t[6] == 114
}

/// What one operator line, trimmed and split on spaces, asks for: a `get`
/// line with two well-formed ports requests a forward, an `add_usr` line
/// creates a client, and everything else is unknown.
pub open spec fn spec_parse_line(s: Seq<u8>) -> ClientDirectiveModel {
    let toks = spec_tokens(spec_trim_line(s), 0);
    if toks.len() == 4 && spec_is_get(toks[0]) {
        match (spec_parse_u32(toks[2]), spec_parse_u32(toks[3])) {
            (Some(port), Some(local_port)) => ClientDirectiveModel::Get {
                hostname: toks[1],
                port,
                local_port,
            },
            _ => ClientDirectiveModel::Unknown,
        }
    } else if toks.len() == 3 && spec_is_add_usr(toks[0]) {
        ClientDirectiveModel::AddUser { username: toks[1], token: toks[2] }
    } else {
        ClientDirectiveModel::Unknown
    }
}

impl Client {
    /// Parses one operator line into the directive it asks for.
    pub fn parse_line(line: &[u8]) -> (r: ClientDirective)
        ensures
            r@ == spec_parse_line(line@),
    {
        let mut e = line.len();
        proof {
            assert(line@.take(line@.len() as int) =~= line@);
        }
        while e > 0 && (line[e - 1] == 10 || line[e - 1] == 13)
            invariant
                e <= line@.len(),
                spec_trim_line(line@) == spec_trim_line(line@.take(e as int)),
            decreases e,
        {
            proof {
                assert(line@.take(e as int).drop_last() =~= line@.take(e as int - 1));
            }
            e -= 1;
        }
        let trimmed = slice_subrange(line, 0, e);
        proof {
            assert(trimmed@ =~= line@.take(e as int));
            assert(trimmed@ == spec_trim_line(line@));
        }
        let toks = split_spaces(trimmed);
        let ghost gt = spec_tokens(spec_trim_line(line@), 0);
        if toks.len() == 4 && is_get(toks[0].as_slice()) {
            proof {
                assert(gt[0] == toks@[0]@ && gt[1] == toks@[1]@ && gt[2] == toks@[2]@ && gt[3]
                    == toks@[3]@);
            }
            let port = parse_u32_dec(toks[2].as_slice());
            let local_port = parse_u32_dec(toks[3].as_slice());
            match (port, local_port) {
                (Some(port), Some(local_port)) => {
                    let hostname = slice_to_vec(toks[1].as_slice());
                    ClientDirective::Get { hostname, port, local_port }
                },
                _ => ClientDirective::Unknown,
            }
        } else if toks.len() == 3 && is_add_usr(toks[0].as_slice()) {
            proof {
                assert(gt[0] == toks@[0]@ && gt[1] == toks@[1]@ && gt[2] == toks@[2]@);
            }
            let username = slice_to_vec(toks[1].as_slice());
            let token = slice_to_vec(toks[2].as_slice());
            ClientDirective::AddUser { username, token }
        } else {
            ClientDirective::Unknown
        }
    }
}

} // verus!
