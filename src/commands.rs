use vstd::prelude::*;
use crate::errors::{AppError, ErrorType};
use crate::model::ReplicationPairData;

verus! {

/// The operator commands of the relay.
pub struct Commands;

/// `c` is an ASCII decimal digit.
pub open spec fn is_digit(c: char) -> bool {
    '0' <= c && c <= '9'
}

/// The value of the decimal digits `s`, most significant first.
pub open spec fn digits_value(s: Seq<char>) -> int
    decreases s.len(),
{
    if s.len() == 0 {
        0
    } else {
        digits_value(s.drop_last()) * 10 + (s.last() as int - '0' as int)
    }
}

/// The digits of a decimal integer, after its optional sign.
pub open spec fn unsigned_part(s: Seq<char>) -> Seq<char> {
    if s.len() > 0 && (s[0] == '-' || s[0] == '+') {
        s.drop_first()
    } else {
        s
    }
}

/// The 64-bit integer written in decimal as `s`: an optional sign, then at
/// least one digit, and nothing else; none when the value does not fit.
pub open spec fn parse_i64_of(s: Seq<char>) -> Option<i64> {
    let body = unsigned_part(s);
    let v = if s.len() > 0 && s[0] == '-' {
        -digits_value(body)
    } else {
        digits_value(body)
    };
    if body.len() == 0 || !(forall|i: int| 0 <= i < body.len() ==> is_digit(#[trigger] body[i])) {
        None
    } else if i64::MIN <= v && v <= i64::MAX {
        Some(v as i64)
    } else {
        None
    }
}

/// `s` cut at every space; two spaces in a row leave an empty piece.
pub open spec fn split_spaces(s: Seq<char>) -> Seq<Seq<char>>
    decreases s.len(),
{
    if s.len() == 0 {
        seq![Seq::empty()]
    } else {
        let prev = split_spaces(s.drop_last());
        if s.last() == ' ' {
            prev.push(Seq::empty())
        } else {
            prev.update(prev.len() - 1, prev.last().push(s.last()))
        }
    }
}

/// The channel pair that `link from_guild from_channel to_guild to_channel`
/// declares: exactly four pieces separated by single spaces, each a 64-bit
/// decimal integer.
pub open spec fn link_of(args: Seq<char>) -> Option<ReplicationPairData> {
    let p = split_spaces(args);
    if p.len() == 4 && parse_i64_of(p[0]) is Some && parse_i64_of(p[1]) is Some && parse_i64_of(p[2]) is Some
        && parse_i64_of(p[3]) is Some {
        Some(
            ReplicationPairData {
                from_guild: parse_i64_of(p[0])->Some_0,
                from_channel: parse_i64_of(p[1])->Some_0,
                to_guild: parse_i64_of(p[2])->Some_0,
                to_channel: parse_i64_of(p[3])->Some_0,
            },
        )
    } else {
        None
    }
}

/// The reply to `link` arguments that declare no pair.
pub open spec fn link_error_message(args: Seq<char>) -> Seq<char> {
    if split_spaces(args).len() != 4 {
        "Invalid arguments from_guild_id from_channel_id to_guild_id to_channel_id"@
    } else {
        "Invalid arguments: ids must be integers"@
    }
}

/// `i` is the position of the first comma of `s`.
pub open spec fn is_first_comma(s: Seq<char>, i: int) -> bool {
    &&& 0 <= i < s.len()
    &&& s[i] == ','
    &&& forall|j: int| 0 <= j < i ==> s[j] != ','
}

/// Where the first comma-separated argument of `s` ends.
pub open spec fn comma_index(s: Seq<char>) -> int {
    if exists|i: int| is_first_comma(s, i) {
        choose|i: int| is_first_comma(s, i)
    } else {
        s.len() as int
    }
}

/// The first of the comma-separated arguments in `s`.
pub open spec fn first_argument(s: Seq<char>) -> Seq<char> {
    s.subrange(0, comma_index(s))
}

/// The unsigned 16-bit integer written in decimal as `s`: an optional plus
/// sign, then at least one digit; none when it is negative or too large.
pub open spec fn parse_u16_of(s: Seq<char>) -> Option<u16> {
    if s.len() > 0 && s[0] == '-' {
        None
    } else {
        match parse_i64_of(s) {
            Some(v) => if 0 <= v <= 65535 {
                Some(v as u16)
            } else {
                None
            },
            None => None,
        }
    }
}

proof fn lemma_split_nonempty(s: Seq<char>)
    ensures
        split_spaces(s).len() >= 1,
    decreases s.len(),
{
    if s.len() > 0 {
        lemma_split_nonempty(s.drop_last());
    }
}

/// The user allowed to run owner-only commands.
pub const OWNER_ID: i64 = 7;

/// The administrator bit of a role's permissions.
pub const ADMINISTRATOR: u64 = 8;

/// A role with the permission bits `perms` grants administrator.
pub open spec fn grants_admin(perms: u64) -> bool {
    perms & ADMINISTRATOR == ADMINISTRATOR
}

/// 2^63, the magnitude of `i64::MIN`.
const MAGNITUDE_LIMIT: u64 = 9223372036854775808;

impl Commands {
    /// The characters of `s`.
    fn chars_of(s: &str) -> (r: Vec<char>)
        ensures
            r@ == s@,
    {
        let n = s.unicode_len();
        let mut out: Vec<char> = Vec::new();
        let mut i: usize = 0;
        while i < n
            invariant
                n == s@.len(),
                i <= n,
                out@ == s@.subrange(0, i as int),
            decreases n - i,
        {
            out.push(s.get_char(i));
            i += 1;
            assert(out@ =~= s@.subrange(0, i as int));
        }
        assert(out@ =~= s@);
        out
    }

    /// The 64-bit integer written in decimal as `s`, if it is one.
    pub fn parse_i64(s: &Vec<char>) -> (r: Option<i64>)
        ensures
            r == parse_i64_of(s@),
    {
        let ghost body = unsigned_part(s@);
        let negative = s.len() > 0 && s[0] == '-';
        let start: usize = if s.len() > 0 && (s[0] == '-' || s[0] == '+') {
            1
        } else {
            0
        };
        if start >= s.len() {
            return None;
        }
        let mut mag: u64 = 0;
        let mut too_big = false;
        let mut i: usize = start;
        while i < s.len()
            invariant
                start <= i <= s@.len(),
                body == s@.subrange(start as int, s@.len() as int),
                body == unsigned_part(s@),
                negative == (s@.len() > 0 && s@[0] == '-'),
                forall|j: int| 0 <= j < i - start ==> is_digit(#[trigger] body[j]),
                !too_big ==> mag as int == digits_value(body.subrange(0, i - start)),
                too_big ==> digits_value(body.subrange(0, i - start)) > MAGNITUDE_LIMIT,
                mag <= MAGNITUDE_LIMIT,
            decreases s@.len() - i,
        {
            let c = s[i];
            if !('0' <= c && c <= '9') {
                assert(body[i - start] == c);
                assert(!is_digit(body[i - start]));
                assert(!(forall|j: int| 0 <= j < body.len() ==> is_digit(#[trigger] body[j])));
                return None;
            }
            let d = (c as u32 - '0' as u32) as u64;
            let ghost prefix = body.subrange(0, i - start);
            let ghost next = body.subrange(0, i + 1 - start);
            assert(next.drop_last() =~= prefix);
            assert(digits_value(next) == digits_value(prefix) * 10 + d);
            if !too_big {
                if mag <= (MAGNITUDE_LIMIT - d) / 10 {
                    mag = mag * 10 + d;
                } else {
                    assert(digits_value(next) > MAGNITUDE_LIMIT) by (nonlinear_arith)
                        requires
                            digits_value(next) == mag * 10 + d,
                            mag > (MAGNITUDE_LIMIT - d) / 10,
                            d <= 9,
                    ;
                    too_big = true;
                }
            } else {
                assert(digits_value(next) > MAGNITUDE_LIMIT) by (nonlinear_arith)
                    requires
                        digits_value(next) == digits_value(prefix) * 10 + d,
                        digits_value(prefix) > MAGNITUDE_LIMIT,
                ;
            }
            i += 1;
        }
        assert(body.subrange(0, body.len() as int) =~= body);
        if too_big {
            return None;
        }
        if negative {
            if mag == MAGNITUDE_LIMIT {
                Some(i64::MIN)
            } else {
                Some(-(mag as i64))
            }
        } else {
            if mag == MAGNITUDE_LIMIT {
                None
            } else {
                Some(mag as i64)
            }
        }
    }

    /// The pieces of `s` cut at every space.
    fn split_spaces_of(s: &Vec<char>) -> (r: Vec<Vec<char>>)
        ensures
            r@.len() == split_spaces(s@).len(),
            forall|k: int| 0 <= k < r@.len() ==> (#[trigger] r@[k])@ == split_spaces(s@)[k],
    {
        let mut done: Vec<Vec<char>> = Vec::new();
        let mut current: Vec<char> = Vec::new();
        let mut i: usize = 0;
        while i < s.len()
            invariant
                i <= s@.len(),
                done@.len() + 1 == split_spaces(s@.subrange(0, i as int)).len(),
                forall|k: int| 0 <= k < done@.len() ==> (#[trigger] done@[k])@ == split_spaces(s@.subrange(0, i as int))[k],
                current@ == split_spaces(s@.subrange(0, i as int)).last(),
            decreases s@.len() - i,
        {
            let c = s[i];
            let ghost prev = split_spaces(s@.subrange(0, i as int));
            assert(s@.subrange(0, i + 1).drop_last() =~= s@.subrange(0, i as int));
            proof {
                lemma_split_nonempty(s@.subrange(0, i as int));
            }
            if c == ' ' {
                done.push(current);
                current = Vec::new();
            } else {
                current.push(c);
            }
            i += 1;
        }
        assert(s@.subrange(0, s@.len() as int) =~= s@);
        done.push(current);
        done
    }

    /// Reads the arguments of `link`: the origin guild and channel, then the
    /// destination guild and channel, separated by single spaces. `BadRequest`
    /// when they are not four 64-bit decimal integers.
    pub fn parse_link(args: &str) -> (r: Result<ReplicationPairData, AppError>)
        ensures
            link_of(args@) is Some ==> r is Ok && r->Ok_0 == link_of(args@)->Some_0,
            link_of(args@) is None ==> r is Err && r->Err_0.err_type == ErrorType::BadRequest
                && r->Err_0.message@ == link_error_message(args@),
    {
        let chars = Self::chars_of(args);
        let pieces = Self::split_spaces_of(&chars);
        if pieces.len() != 4 {
            return Err(
                AppError::new(
                    "Invalid arguments from_guild_id from_channel_id to_guild_id to_channel_id",
                    ErrorType::BadRequest,
                ),
            );
        }
        let a = Self::parse_i64(&pieces[0]);
        let b = Self::parse_i64(&pieces[1]);
        let c = Self::parse_i64(&pieces[2]);
        let d = Self::parse_i64(&pieces[3]);
        match (a, b, c, d) {
            (Some(from_guild), Some(from_channel), Some(to_guild), Some(to_channel)) => Ok(
                ReplicationPairData { from_guild, from_channel, to_guild, to_channel },
            ),
            _ => Err(AppError::new("Invalid arguments: ids must be integers", ErrorType::BadRequest)),
        }
    }

    /// Whether `author_id` may run owner-only commands.
    pub fn owner_check(author_id: i64) -> (r: bool)
        ensures
            r == (author_id == OWNER_ID),
    {
        author_id == OWNER_ID
    }

    /// Whether one of a member's roles, given by their permission bits,
    /// grants administrator.
    pub fn am_i_admin(role_permissions: &Vec<u64>) -> (r: bool)
        ensures
            r == exists|i: int| 0 <= i < role_permissions@.len() && grants_admin(#[trigger] role_permissions@[i]),
    {
        let mut i: usize = 0;
        while i < role_permissions.len()
            invariant
                i <= role_permissions@.len(),
                forall|k: int| 0 <= k < i ==> !grants_admin(#[trigger] role_permissions@[k]),
            decreases role_permissions@.len() - i,
        {
            if role_permissions[i] & ADMINISTRATOR == ADMINISTRATOR {
                return true;
            }
            i += 1;
        }
        false
    }

    /// The index of the first comma of `s`, or its length when it has none.
    fn comma_position(s: &Vec<char>) -> (r: usize)
        ensures
            r == comma_index(s@),
    {
        let mut i: usize = 0;
        while i < s.len()
            invariant
                i <= s@.len(),
                forall|j: int| 0 <= j < i ==> s@[j] != ',',
            decreases s@.len() - i,
        {
            if s[i] == ',' {
                proof {
                    assert(is_first_comma(s@, i as int));
                    let k = choose|k: int| is_first_comma(s@, k);
                    if k < i {
                        assert(s@[k] == ',');
                    } else if k > i {
                        assert(s@[i as int] != ',');
                    }
                }
                return i;
            }
            i += 1;
        }
        proof {
            assert forall|k: int| !is_first_comma(s@, k) by {
                if 0 <= k < s@.len() {
                    assert(s@[k] != ',');
                }
            }
        }
        i
    }

    /// The slow mode rate, in seconds, that the arguments of `slow_mode` ask
    /// for: the first of the comma-separated arguments, read as an unsigned
    /// 16-bit decimal integer.
    pub fn parse_slow_mode_rate(args: &str) -> (r: Option<u16>)
        ensures
            r == parse_u16_of(first_argument(args@)),
    {
        let chars = Self::chars_of(args);
        let end = Self::comma_position(&chars);
        let mut first: Vec<char> = Vec::new();
        let mut i: usize = 0;
        while i < end
            invariant
                end <= chars@.len(),
                i <= end,
                first@ == chars@.subrange(0, i as int),
            decreases end - i,
        {
            first.push(chars[i]);
            i += 1;
            assert(first@ =~= chars@.subrange(0, i as int));
        }
        if first.len() > 0 && first[0] == '-' {
            return None;
        }
        match Self::parse_i64(&first) {
            Some(v) => if 0 <= v && v <= 65535 {
                Some(v as u16)
            } else {
                None
            },
            None => None,
        }
    }
}

} // verus!
