//! The stateless interaction grammar: an action token is `action[:arg]*`
//! with `:` as the reserved delimiter. Every token carries its whole
//! context, so the same handler serves a first command and a much later
//! button press without server-side session state.

use vstd::prelude::*;
use vstd::string::{StrSliceExecFns, StringExecFns};

verus! {

/// Whether `c` is a decimal digit.
pub open spec fn is_digit(c: char) -> bool {
    48 <= c as u32 <= 57
}

/// The value of a decimal digit.
pub open spec fn digit_val(c: char) -> nat
    recommends
        is_digit(c),
{
    (c as u32 - 48) as nat
}

/// The digit character of a value below ten.
pub open spec fn digit_char(d: nat) -> char
    recommends
        d < 10,
{
    if d == 0 {
        '0'
    } else if d == 1 {
        '1'
    } else if d == 2 {
        '2'
    } else if d == 3 {
        '3'
    } else if d == 4 {
        '4'
    } else if d == 5 {
        '5'
    } else if d == 6 {
        '6'
    } else if d == 7 {
        '7'
    } else if d == 8 {
        '8'
    } else {
        '9'
    }
}

/// Whether every character of `s` is a decimal digit.
pub open spec fn all_digits(s: Seq<char>) -> bool {
    forall|i: int| 0 <= i < s.len() ==> is_digit(#[trigger] s[i])
}

/// The decimal numeral of `n`, most significant digit first.
pub open spec fn dec_rep(n: nat) -> Seq<char>
    decreases n,
{
    if n < 10 {
        seq![digit_char(n)]
    } else {
        dec_rep(n / 10).push(digit_char(n % 10))
    }
}

/// The value of a digit string, read as a decimal numeral.
pub open spec fn dec_val(s: Seq<char>) -> nat
    decreases s.len(),
{
    if s.len() == 0 {
        0
    } else {
        dec_val(s.drop_last()) * 10 + digit_val(s.last())
    }
}

/// The digit character of `d` is a digit and reads back as `d`.
proof fn lemma_digit_char_val(d: nat)
    requires
        d < 10,
    ensures
        is_digit(digit_char(d)),
        digit_val(digit_char(d)) == d,
{
}

/// A numeral consists of digits and is never empty.
pub proof fn lemma_dec_rep_digits(n: nat)
    ensures
        all_digits(dec_rep(n)),
        dec_rep(n).len() >= 1,
    decreases n,
{
    if n >= 10 {
        lemma_dec_rep_digits(n / 10);
        assert(dec_rep(n) == dec_rep(n / 10).push(digit_char(n % 10)));
        assert(forall|i: int|
            0 <= i < dec_rep(n).len() ==> is_digit(#[trigger] dec_rep(n)[i]));
    }
}

/// Reading back the numeral of `n` yields `n`.
pub proof fn lemma_dec_val_of_rep(n: nat)
    ensures
        dec_val(dec_rep(n)) == n,
    decreases n,
{
    if n < 10 {
        lemma_digit_char_val(n);
        let s = dec_rep(n);
        assert(s.drop_last() =~= Seq::<char>::empty());
        assert(dec_val(s) == dec_val(s.drop_last()) * 10 + digit_val(s.last()));
    } else {
        lemma_dec_val_of_rep(n / 10);
        lemma_digit_char_val(n % 10);
        let s = dec_rep(n);
        assert(s.drop_last() =~= dec_rep(n / 10));
        assert(s.last() == digit_char(n % 10));
        vstd::arithmetic::div_mod::lemma_fundamental_div_mod(n as int, 10);
    }
}

/// Extending a digit string on the right cannot shrink its value.
proof fn lemma_dec_val_prefix_bound(s: Seq<char>, i: int)
    requires
        0 <= i <= s.len(),
        all_digits(s),
    ensures
        dec_val(s.take(i)) <= dec_val(s),
    decreases s.len() - i,
{
    if i < s.len() {
        let t = s.take(i + 1);
        assert(t.drop_last() =~= s.take(i));
        assert(dec_val(t) == dec_val(s.take(i)) * 10 + digit_val(t.last()));
        lemma_dec_val_prefix_bound(s, i + 1);
    } else {
        assert(s.take(i) =~= s);
    }
}

/// Parses a string of decimal digits. Returns the value exactly when the
/// string is a nonempty digit string whose value fits; anything else is
/// refused.
#[verifier::loop_isolation(false)]
pub fn parse_u32_digits(s: &str) -> (r: Option<u32>)
    ensures
        match r {
            Some(v) => s@.len() > 0 && all_digits(s@) && dec_val(s@) == v,
            None => s@.len() == 0 || !all_digits(s@) || dec_val(s@) > u32::MAX,
        },
{
    let n = s.unicode_len();
    if n == 0 {
        return None;
    }
    let mut acc: u64 = 0;
    let mut i: usize = 0;
    proof {
        assert(s@.take(0) =~= Seq::<char>::empty());
    }
    while i < n
        invariant
            i <= n,
            n == s@.len(),
            acc <= u32::MAX,
            all_digits(s@.take(i as int)),
            acc == dec_val(s@.take(i as int)),
        decreases n - i,
    {
        let c = s.get_char(i);
        let cv = c as u32;
        if cv < 48 || cv > 57 {
            assert(!is_digit(s@[i as int]));
            return None;
        }
        let d = cv - 48;
        acc = acc * 10 + d as u64;
        proof {
            let t = s@.take(i as int + 1);
            assert(t.drop_last() =~= s@.take(i as int));
            assert(t.last() == s@[i as int]);
        }
        i += 1;
        if acc > u32::MAX as u64 {
            proof {
                if all_digits(s@) {
                    lemma_dec_val_prefix_bound(s@, i as int);
                }
            }
            return None;
        }
    }
    proof {
        assert(s@.take(n as int) =~= s@);
    }
    Some(acc as u32)
}

/// The digit character of `d`, as a one-character string.
fn digit_str(d: u32) -> (r: &'static str)
    requires
        d < 10,
    ensures
        r@ == seq![digit_char(d as nat)],
{
    proof {
        reveal_strlit("0");
        reveal_strlit("1");
        reveal_strlit("2");
        reveal_strlit("3");
        reveal_strlit("4");
        reveal_strlit("5");
        reveal_strlit("6");
        reveal_strlit("7");
        reveal_strlit("8");
        reveal_strlit("9");
    }
    let r = if d == 0 {
        "0"
    } else if d == 1 {
        "1"
    } else if d == 2 {
        "2"
    } else if d == 3 {
        "3"
    } else if d == 4 {
        "4"
    } else if d == 5 {
        "5"
    } else if d == 6 {
        "6"
    } else if d == 7 {
        "7"
    } else if d == 8 {
        "8"
    } else {
        "9"
    };
    proof {
        assert(r@ =~= seq![digit_char(d as nat)]);
    }
    r
}

/// Writes `n` as a decimal numeral.
pub fn u32_to_dec(n: u32) -> (r: String)
    ensures
        r@ == dec_rep(n as nat),
    decreases n,
{
    if n < 10 {
        String::from_str(digit_str(n))
    } else {
        let mut s = u32_to_dec(n / 10);
        s.append(digit_str(n % 10));
        proof {
            assert(dec_rep((n / 10) as nat).push(digit_char((n % 10) as nat)) =~= dec_rep(
                (n / 10) as nat,
            ) + seq![digit_char((n % 10) as nat)]);
        }
        s
    }
}

/// The fields of `s` split on every `:`, in order; a string without the
/// delimiter is one field, and every delimiter separates two (possibly
/// empty) fields.
pub open spec fn split_colons(s: Seq<char>) -> Seq<Seq<char>>
    decreases s.len(),
{
    if s.len() == 0 {
        seq![Seq::<char>::empty()]
    } else if s[0] == ':' {
        seq![Seq::<char>::empty()] + split_colons(s.drop_first())
    } else {
        let rest = split_colons(s.drop_first());
        seq![seq![s[0]] + rest[0]] + rest.drop_first()
    }
}

/// A split has at least one field.
pub proof fn lemma_split_len(s: Seq<char>)
    ensures
        split_colons(s).len() >= 1,
    decreases s.len(),
{
    if s.len() > 0 {
        lemma_split_len(s.drop_first());
    }
}

/// `parts` with `pre` glued onto its first field.
spec fn prepend_first(pre: Seq<char>, parts: Seq<Seq<char>>) -> Seq<Seq<char>>
    recommends
        parts.len() >= 1,
{
    seq![pre + parts[0]] + parts.drop_first()
}

proof fn lemma_prepend_empty(parts: Seq<Seq<char>>)
    requires
        parts.len() >= 1,
    ensures
        prepend_first(Seq::<char>::empty(), parts) == parts,
{
    assert(prepend_first(Seq::<char>::empty(), parts) =~~= parts);
}

proof fn lemma_prepend_push(pre: Seq<char>, c: char, parts: Seq<Seq<char>>)
    requires
        parts.len() >= 1,
    ensures
        prepend_first(pre, prepend_first(seq![c], parts)) == prepend_first(pre.push(c), parts),
{
    assert(prepend_first(pre, prepend_first(seq![c], parts)) =~~= prepend_first(
        pre.push(c),
        parts,
    ));
}

/// Splits `s` on every `:`, returning the fields as subslices, in order.
#[verifier::loop_isolation(false)]
pub fn split_colons_str<'a>(s: &'a str) -> (r: Vec<&'a str>)
    ensures
        r@.map_values(|t: &str| t@) == split_colons(s@),
        r@.len() >= 1,
{
    let n = s.unicode_len();
    let mut parts: Vec<&'a str> = Vec::new();
    let mut seg_start: usize = 0;
    let mut i: usize = 0;
    proof {
        lemma_split_len(s@);
        assert(s@.skip(0) =~= s@);
        assert(s@.subrange(0, 0) =~= Seq::<char>::empty());
        lemma_prepend_empty(split_colons(s@));
        assert(parts@.map_values(|t: &str| t@) =~~= Seq::<Seq<char>>::empty());
    }
    while i < n
        invariant
            seg_start <= i <= n,
            n == s@.len(),
            split_colons(s@) == parts@.map_values(|t: &str| t@) + prepend_first(
                s@.subrange(seg_start as int, i as int),
                split_colons(s@.skip(i as int)),
            ),
            split_colons(s@.skip(i as int)).len() >= 1,
        decreases n - i,
    {
        let ghost cur = s@.subrange(seg_start as int, i as int);
        let ghost tail = s@.skip(i as int);
        proof {
            assert(tail[0] == s@[i as int]);
            assert(tail.drop_first() =~= s@.skip(i as int + 1));
            lemma_split_len(s@.skip(i as int + 1));
        }
        let c = s.get_char(i);
        if c == ':' {
            let field = s.substring_char(seg_start, i);
            parts.push(field);
            proof {
                // With a delimiter at `i`, the tail splits into an empty
                // field and the split of the rest; the current segment
                // closes here.
                assert(split_colons(tail) == seq![Seq::<char>::empty()] + split_colons(
                    s@.skip(i as int + 1),
                ));
                assert(prepend_first(cur, split_colons(tail)) =~~= seq![cur] + split_colons(
                    s@.skip(i as int + 1),
                ));
                let old_map = parts@.drop_last().map_values(|t: &str| t@);
                assert(parts@.map_values(|t: &str| t@) =~~= old_map.push(field@));
                assert(field@ == cur);
                assert(old_map.push(cur) + split_colons(s@.skip(i as int + 1)) =~~= old_map + (
                seq![cur] + split_colons(s@.skip(i as int + 1))));
                assert(s@.subrange(i as int + 1, i as int + 1) =~= Seq::<char>::empty());
                lemma_prepend_empty(split_colons(s@.skip(i as int + 1)));
            }
            seg_start = i + 1;
        } else {
            proof {
                // No delimiter at `i`: the first field of the tail's split
                // begins with this character, which moves into the current
                // segment.
                let rest = split_colons(s@.skip(i as int + 1));
                assert(split_colons(tail) == prepend_first(seq![tail[0]], rest));
                lemma_prepend_push(cur, s@[i as int], rest);
                assert(cur.push(s@[i as int]) =~= s@.subrange(seg_start as int, i as int + 1));
            }
        }
        i += 1;
    }
    let field = s.substring_char(seg_start, n);
    parts.push(field);
    proof {
        let ghost cur = s@.subrange(seg_start as int, n as int);
        assert(s@.skip(n as int) =~= Seq::<char>::empty());
        assert(split_colons(s@.skip(n as int)) == seq![Seq::<char>::empty()]);
        assert(prepend_first(cur, seq![Seq::<char>::empty()]) =~~= seq![cur]);
        let old_map = parts@.drop_last().map_values(|t: &str| t@);
        assert(parts@.map_values(|t: &str| t@) =~~= old_map.push(field@));
        assert(old_map.push(cur) =~~= old_map + seq![cur]);
    }
    parts
}

/// The name of the paging action.
pub open spec fn cmd_list_points() -> Seq<char> {
    seq!['l', 'i', 's', 't', '_', 'p', 'o', 'i', 'n', 't', 's']
}

/// The name of the action that lists occupiable points.
pub open spec fn cmd_show_occupy() -> Seq<char> {
    seq!['s', 'h', 'o', 'w', '_', 'o', 'c', 'c', 'u', 'p', 'y']
}

/// The name of the action that lists challengeable points.
pub open spec fn cmd_show_challenge() -> Seq<char> {
    seq!['s', 'h', 'o', 'w', '_', 'c', 'h', 'a', 'l', 'l', 'e', 'n', 'g', 'e']
}

/// The name of the action that lists judgeable points.
pub open spec fn cmd_show_judge() -> Seq<char> {
    seq!['s', 'h', 'o', 'w', '_', 'j', 'u', 'd', 'g', 'e']
}

/// The name of the occupation action.
pub open spec fn cmd_occupy() -> Seq<char> {
    seq!['o', 'c', 'c', 'u', 'p', 'y']
}

/// A decoded action token.
#[derive(Clone, Copy, PartialEq, Eq, Debug)]
pub enum Action {
    /// Show the first page with the default page size, as a new message.
    ListPointsHome,
    /// Show the given page in place.
    ListPoints { page_index: u32, page_size: u32 },
    /// Show buttons for the points the actor could occupy.
    ShowOccupy { page_index: u32, page_size: u32 },
    /// Show buttons for the points the actor could challenge.
    ShowChallenge { page_index: u32, page_size: u32 },
    /// Show buttons for the points with a judgeable challenge.
    ShowJudge { page_index: u32, page_size: u32 },
    /// Occupy a point, then show the given page again.
    Occupy { ore_point_id: i32, page_index: u32, page_size: u32 },
}

/// Why a token was refused.
#[derive(Clone, Copy, PartialEq, Eq, Debug)]
pub enum TokenError {
    /// The action name is not part of the grammar: tokens may arrive long
    /// after issuance, possibly from another deployment, and are rejected
    /// rather than crashed on.
    UnknownCommand,
    /// The action is known but the arguments have the wrong count or shape.
    BadArguments,
}

/// A page argument: a nonempty digit string whose value fits.
pub open spec fn parse_page(s: Seq<char>) -> Option<u32> {
    if s.len() > 0 && all_digits(s) && dec_val(s) <= u32::MAX {
        Some(dec_val(s) as u32)
    } else {
        None
    }
}

/// A point-id argument: a nonempty digit string whose value fits the id
/// type.
pub open spec fn parse_point_id(s: Seq<char>) -> Option<i32> {
    if s.len() > 0 && all_digits(s) && dec_val(s) <= i32::MAX {
        Some(dec_val(s) as i32)
    } else {
        None
    }
}

/// The grammar: the action name stands before the first delimiter, the
/// remaining fields are its arguments, positional and type-checked per
/// action. An unknown name or a malformed argument list is an error,
/// never silently ignored.
pub open spec fn token_spec(s: Seq<char>) -> Result<Action, TokenError> {
    let parts = split_colons(s);
    let cmd = parts[0];
    let args = if parts.len() == 1 {
        seq![Seq::<char>::empty()]
    } else {
        parts.drop_first()
    };
    if cmd == cmd_list_points() {
        if args.len() == 1 && args[0].len() == 0 {
            Ok(Action::ListPointsHome)
        } else if args.len() == 2 {
            match (parse_page(args[0]), parse_page(args[1])) {
                (Some(page_index), Some(page_size)) => Ok(
                    Action::ListPoints { page_index, page_size },
                ),
                _ => Err(TokenError::BadArguments),
            }
        } else {
            Err(TokenError::BadArguments)
        }
    } else if cmd == cmd_show_occupy() {
        match two_pages(args) {
            Some((page_index, page_size)) => Ok(Action::ShowOccupy { page_index, page_size }),
            None => Err(TokenError::BadArguments),
        }
    } else if cmd == cmd_show_challenge() {
        match two_pages(args) {
            Some((page_index, page_size)) => Ok(Action::ShowChallenge { page_index, page_size }),
            None => Err(TokenError::BadArguments),
        }
    } else if cmd == cmd_show_judge() {
        match two_pages(args) {
            Some((page_index, page_size)) => Ok(Action::ShowJudge { page_index, page_size }),
            None => Err(TokenError::BadArguments),
        }
    } else if cmd == cmd_occupy() {
        if args.len() == 3 {
            match (parse_point_id(args[0]), parse_page(args[1]), parse_page(args[2])) {
                (Some(ore_point_id), Some(page_index), Some(page_size)) => Ok(
                    Action::Occupy { ore_point_id, page_index, page_size },
                ),
                _ => Err(TokenError::BadArguments),
            }
        } else {
            Err(TokenError::BadArguments)
        }
    } else {
        Err(TokenError::UnknownCommand)
    }
}

/// Exactly two page arguments, both well formed.
pub open spec fn two_pages(args: Seq<Seq<char>>) -> Option<(u32, u32)> {
    if args.len() == 2 {
        match (parse_page(args[0]), parse_page(args[1])) {
            (Some(a), Some(b)) => Some((a, b)),
            _ => None,
        }
    } else {
        None
    }
}

/// Whether two strings hold the same characters.
#[verifier::loop_isolation(false)]
fn str_eq(a: &str, b: &str) -> (r: bool)
    ensures
        r == (a@ == b@),
{
    let n = a.unicode_len();
    if n != b.unicode_len() {
        return false;
    }
    let mut i: usize = 0;
    while i < n
        invariant
            i <= n,
            n == a@.len() == b@.len(),
            forall|j: int| 0 <= j < i ==> a@[j] == b@[j],
        decreases n - i,
    {
        if a.get_char(i) != b.get_char(i) {
            return false;
        }
        i += 1;
    }
    proof {
        assert(a@ =~= b@);
    }
    true
}

/// Parses one page argument.
fn parse_page_arg(s: &str) -> (r: Option<u32>)
    ensures
        r == parse_page(s@),
{
    parse_u32_digits(s)
}

/// Decodes a token against the grammar.
pub fn parse_token(s: &str) -> (r: Result<Action, TokenError>)
    ensures
        r == token_spec(s@),
{
    proof {
        reveal_strlit("list_points");
        reveal_strlit("show_occupy");
        reveal_strlit("show_challenge");
        reveal_strlit("show_judge");
        reveal_strlit("occupy");
        assert("list_points"@ =~= cmd_list_points());
        assert("show_occupy"@ =~= cmd_show_occupy());
        assert("show_challenge"@ =~= cmd_show_challenge());
        assert("show_judge"@ =~= cmd_show_judge());
        assert("occupy"@ =~= cmd_occupy());
    }
    let parts = split_colons_str(s);
    let ghost sparts = split_colons(s@);
    let cmd = parts[0];
    proof {
        assert(cmd@ == sparts[0]);
    }
    let argc = parts.len() - 1;
    if str_eq(cmd, "list_points") {
        if argc == 0 || (argc == 1 && parts[1].is_empty()) {
            Ok(Action::ListPointsHome)
        } else if argc == 2 {
            match (parse_page_arg(parts[1]), parse_page_arg(parts[2])) {
                (Some(page_index), Some(page_size)) => Ok(
                    Action::ListPoints { page_index, page_size },
                ),
                _ => Err(TokenError::BadArguments),
            }
        } else {
            Err(TokenError::BadArguments)
        }
    } else if str_eq(cmd, "show_occupy") {
        match parse_two_pages(&parts) {
            Some((page_index, page_size)) => Ok(Action::ShowOccupy { page_index, page_size }),
            None => Err(TokenError::BadArguments),
        }
    } else if str_eq(cmd, "show_challenge") {
        match parse_two_pages(&parts) {
            Some((page_index, page_size)) => Ok(Action::ShowChallenge { page_index, page_size }),
            None => Err(TokenError::BadArguments),
        }
    } else if str_eq(cmd, "show_judge") {
        match parse_two_pages(&parts) {
            Some((page_index, page_size)) => Ok(Action::ShowJudge { page_index, page_size }),
            None => Err(TokenError::BadArguments),
        }
    } else if str_eq(cmd, "occupy") {
        if argc == 3 {
            let pid = match parse_u32_digits(parts[1]) {
                Some(v) if v <= i32::MAX as u32 => Some(v as i32),
                _ => None,
            };
            match (pid, parse_page_arg(parts[2]), parse_page_arg(parts[3])) {
                (Some(ore_point_id), Some(page_index), Some(page_size)) => Ok(
                    Action::Occupy { ore_point_id, page_index, page_size },
                ),
                _ => Err(TokenError::BadArguments),
            }
        } else {
            Err(TokenError::BadArguments)
        }
    } else {
        Err(TokenError::UnknownCommand)
    }
}

/// Parses the two page arguments shared by the show actions.
fn parse_two_pages(parts: &Vec<&str>) -> (r: Option<(u32, u32)>)
    requires
        parts@.len() >= 1,
    ensures
        ({
            let sparts = parts@.map_values(|t: &str| t@);
            let args = if sparts.len() == 1 {
                seq![Seq::<char>::empty()]
            } else {
                sparts.drop_first()
            };
            r == two_pages(args)
        }),
{
    if parts.len() != 3 {
        return None;
    }
    match (parse_page_arg(parts[1]), parse_page_arg(parts[2])) {
        (Some(a), Some(b)) => Some((a, b)),
        _ => None,
    }
}

/// The name of the challenge button action (routed by a later surface).
pub open spec fn cmd_challenge() -> Seq<char> {
    seq!['c', 'h', 'a', 'l', 'l', 'e', 'n', 'g', 'e']
}

/// The name of the judge button action (routed by a later surface).
pub open spec fn cmd_judge() -> Seq<char> {
    seq!['j', 'u', 'd', 'g', 'e']
}

/// A token of an action on a page: `cmd:pageIndex:pageSize`.
pub open spec fn page_token(cmd: Seq<char>, page_index: u32, page_size: u32) -> Seq<char> {
    cmd + seq![':'] + dec_rep(page_index as nat) + seq![':'] + dec_rep(page_size as nat)
}

/// A token of an action on one point of a page:
/// `cmd:pointId:pageIndex:pageSize`.
pub open spec fn point_token(cmd: Seq<char>, point_id: i32, page_index: u32, page_size: u32)
    -> Seq<char>
    recommends
        point_id >= 0,
{
    cmd + seq![':'] + dec_rep(point_id as nat) + seq![':'] + dec_rep(page_index as nat)
        + seq![':'] + dec_rep(page_size as nat)
}

/// Appends the numeral of `n`.
fn append_dec(out: &mut String, n: u32)
    ensures
        final(out)@ == old(out)@ + dec_rep(n as nat),
{
    let d = u32_to_dec(n);
    out.append(d.as_str());
}

/// Appends the delimiter.
fn append_colon(out: &mut String)
    ensures
        final(out)@ == old(out)@ + seq![':'],
{
    out.append(":");
    proof {
        reveal_strlit(":");
        assert(":"@ =~= seq![':']);
    }
}

/// Encodes `cmd:pageIndex:pageSize`.
fn encode_page_token(cmd: &str, page_index: u32, page_size: u32) -> (r: String)
    ensures
        r@ == page_token(cmd@, page_index, page_size),
{
    let mut out = String::from_str(cmd);
    append_colon(&mut out);
    append_dec(&mut out, page_index);
    append_colon(&mut out);
    append_dec(&mut out, page_size);
    out
}

/// Encodes `cmd:pointId:pageIndex:pageSize`.
fn encode_point_token(cmd: &str, point_id: i32, page_index: u32, page_size: u32) -> (r: String)
    requires
        point_id >= 0,
    ensures
        r@ == point_token(cmd@, point_id, page_index, page_size),
{
    let mut out = String::from_str(cmd);
    append_colon(&mut out);
    append_dec(&mut out, point_id as u32);
    append_colon(&mut out);
    append_dec(&mut out, page_index);
    append_colon(&mut out);
    append_dec(&mut out, page_size);
    out
}

/// Encodes a paging token.
pub fn encode_list_points(page_index: u32, page_size: u32) -> (r: String)
    ensures
        r@ == page_token(cmd_list_points(), page_index, page_size),
{
    proof {
        reveal_strlit("list_points");
        assert("list_points"@ =~= cmd_list_points());
    }
    encode_page_token("list_points", page_index, page_size)
}

/// Encodes a show-occupiable token.
pub fn encode_show_occupy(page_index: u32, page_size: u32) -> (r: String)
    ensures
        r@ == page_token(cmd_show_occupy(), page_index, page_size),
{
    proof {
        reveal_strlit("show_occupy");
        assert("show_occupy"@ =~= cmd_show_occupy());
    }
    encode_page_token("show_occupy", page_index, page_size)
}

/// Encodes a show-challengeable token.
pub fn encode_show_challenge(page_index: u32, page_size: u32) -> (r: String)
    ensures
        r@ == page_token(cmd_show_challenge(), page_index, page_size),
{
    proof {
        reveal_strlit("show_challenge");
        assert("show_challenge"@ =~= cmd_show_challenge());
    }
    encode_page_token("show_challenge", page_index, page_size)
}

/// Encodes a show-judgeable token.
pub fn encode_show_judge(page_index: u32, page_size: u32) -> (r: String)
    ensures
        r@ == page_token(cmd_show_judge(), page_index, page_size),
{
    proof {
        reveal_strlit("show_judge");
        assert("show_judge"@ =~= cmd_show_judge());
    }
    encode_page_token("show_judge", page_index, page_size)
}

/// Encodes an occupy button token.
pub fn encode_occupy(ore_point_id: i32, page_index: u32, page_size: u32) -> (r: String)
    requires
        ore_point_id >= 0,
    ensures
        r@ == point_token(cmd_occupy(), ore_point_id, page_index, page_size),
{
    proof {
        reveal_strlit("occupy");
        assert("occupy"@ =~= cmd_occupy());
    }
    encode_point_token("occupy", ore_point_id, page_index, page_size)
}

/// Encodes a challenge button token.
pub fn encode_challenge(ore_point_id: i32, page_index: u32, page_size: u32) -> (r: String)
    requires
        ore_point_id >= 0,
    ensures
        r@ == point_token(cmd_challenge(), ore_point_id, page_index, page_size),
{
    proof {
        reveal_strlit("challenge");
        assert("challenge"@ =~= cmd_challenge());
    }
    encode_point_token("challenge", ore_point_id, page_index, page_size)
}

/// Encodes a judge button token.
pub fn encode_judge(ore_point_id: i32, page_index: u32, page_size: u32) -> (r: String)
    requires
        ore_point_id >= 0,
    ensures
        r@ == point_token(cmd_judge(), ore_point_id, page_index, page_size),
{
    proof {
        reveal_strlit("judge");
        assert("judge"@ =~= cmd_judge());
    }
    encode_point_token("judge", ore_point_id, page_index, page_size)
}

/// A digit string holds no delimiter.
proof fn lemma_digits_no_colon(s: Seq<char>)
    requires
        all_digits(s),
    ensures
        forall|i: int| 0 <= i < s.len() ==> s[i] != ':',
{
    assert(forall|i: int| 0 <= i < s.len() ==> is_digit(#[trigger] s[i]) && s[i] != ':') by {
        assert(forall|i: int|
            0 <= i < s.len() ==> is_digit(#[trigger] s[i]) && (s[i] as u32) != 58);
    }
}

/// A string without the delimiter splits into itself alone.
proof fn lemma_split_no_colon(a: Seq<char>)
    requires
        forall|i: int| 0 <= i < a.len() ==> a[i] != ':',
    ensures
        split_colons(a) == seq![a],
    decreases a.len(),
{
    if a.len() == 0 {
        assert(split_colons(a) =~~= seq![a]);
    } else {
        lemma_split_no_colon(a.drop_first());
        assert(split_colons(a) =~~= seq![a]);
    }
}

/// A delimiter after a clean prefix closes the prefix as the first field.
proof fn lemma_split_prefix(a: Seq<char>, b: Seq<char>)
    requires
        forall|i: int| 0 <= i < a.len() ==> a[i] != ':',
    ensures
        split_colons(a + seq![':'] + b) == seq![a] + split_colons(b),
    decreases a.len(),
{
    let t = a + seq![':'] + b;
    if a.len() == 0 {
        assert(t[0] == ':');
        assert(t.drop_first() =~= b);
        assert(split_colons(t) =~~= seq![a] + split_colons(b));
    } else {
        assert(t[0] == a[0]);
        assert(t[0] != ':');
        assert(t.drop_first() =~= a.drop_first() + seq![':'] + b);
        lemma_split_prefix(a.drop_first(), b);
        lemma_split_len(b);
        let rest = split_colons(t.drop_first());
        assert(rest == seq![a.drop_first()] + split_colons(b));
        assert(rest[0] == a.drop_first());
        assert(seq![t[0]] + rest[0] =~= a);
        assert(rest.drop_first() =~= split_colons(b));
        assert(split_colons(t) =~~= seq![a] + split_colons(b));
    }
}

/// Splitting a freshly encoded page token recovers its three fields.
proof fn lemma_split_page_token(cmd: Seq<char>, page_index: u32, page_size: u32)
    requires
        forall|i: int| 0 <= i < cmd.len() ==> cmd[i] != ':',
    ensures
        split_colons(page_token(cmd, page_index, page_size)) == seq![
            cmd,
            dec_rep(page_index as nat),
            dec_rep(page_size as nat),
        ],
{
    let di = dec_rep(page_index as nat);
    let ds = dec_rep(page_size as nat);
    lemma_dec_rep_digits(page_index as nat);
    lemma_dec_rep_digits(page_size as nat);
    lemma_digits_no_colon(di);
    lemma_digits_no_colon(ds);
    lemma_split_no_colon(ds);
    lemma_split_prefix(di, ds);
    lemma_split_prefix(cmd, di + seq![':'] + ds);
    assert(page_token(cmd, page_index, page_size) =~= cmd + seq![':'] + (di + seq![':'] + ds));
    assert(seq![cmd] + (seq![di] + seq![ds]) =~~= seq![cmd, di, ds]);
}

/// Decoding an encoded paging token yields the page that was encoded, and
/// no error.
pub proof fn lemma_list_points_round_trip(page_index: u32, page_size: u32)
    ensures
        token_spec(page_token(cmd_list_points(), page_index, page_size)) == Ok::<
            Action,
            TokenError,
        >(Action::ListPoints { page_index, page_size }),
{
    let cmd = cmd_list_points();
    assert(forall|i: int| 0 <= i < cmd.len() ==> cmd[i] != ':');
    lemma_split_page_token(cmd, page_index, page_size);
    lemma_dec_rep_digits(page_index as nat);
    lemma_dec_rep_digits(page_size as nat);
    lemma_dec_val_of_rep(page_index as nat);
    lemma_dec_val_of_rep(page_size as nat);
    let parts = split_colons(page_token(cmd, page_index, page_size));
    assert(parts.drop_first() =~= seq![dec_rep(page_index as nat), dec_rep(page_size as nat)]);
}

/// Decoding an encoded show token yields the action and page that were
/// encoded, for each of the three show actions.
pub proof fn lemma_show_round_trip(page_index: u32, page_size: u32)
    ensures
        token_spec(page_token(cmd_show_occupy(), page_index, page_size)) == Ok::<
            Action,
            TokenError,
        >(Action::ShowOccupy { page_index, page_size }),
        token_spec(page_token(cmd_show_challenge(), page_index, page_size)) == Ok::<
            Action,
            TokenError,
        >(Action::ShowChallenge { page_index, page_size }),
        token_spec(page_token(cmd_show_judge(), page_index, page_size)) == Ok::<
            Action,
            TokenError,
        >(Action::ShowJudge { page_index, page_size }),
{
    lemma_dec_rep_digits(page_index as nat);
    lemma_dec_rep_digits(page_size as nat);
    lemma_dec_val_of_rep(page_index as nat);
    lemma_dec_val_of_rep(page_size as nat);
    assert(forall|i: int| 0 <= i < cmd_show_occupy().len() ==> cmd_show_occupy()[i] != ':');
    assert(forall|i: int| 0 <= i < cmd_show_challenge().len() ==> cmd_show_challenge()[i] != ':');
    assert(forall|i: int| 0 <= i < cmd_show_judge().len() ==> cmd_show_judge()[i] != ':');
    assert(cmd_show_occupy() != cmd_list_points());
    assert(cmd_show_challenge() != cmd_list_points());
    assert(cmd_show_judge() != cmd_list_points());
    lemma_split_page_token(cmd_show_occupy(), page_index, page_size);
    lemma_split_page_token(cmd_show_challenge(), page_index, page_size);
    lemma_split_page_token(cmd_show_judge(), page_index, page_size);
    let t1 = page_token(cmd_show_occupy(), page_index, page_size);
    let t2 = page_token(cmd_show_challenge(), page_index, page_size);
    let t3 = page_token(cmd_show_judge(), page_index, page_size);
    assert(cmd_show_occupy() != cmd_show_challenge());
    assert(split_colons(t1).drop_first() =~= seq![
        dec_rep(page_index as nat),
        dec_rep(page_size as nat),
    ]);
    assert(split_colons(t2).drop_first() =~= seq![
        dec_rep(page_index as nat),
        dec_rep(page_size as nat),
    ]);
    assert(split_colons(t3).drop_first() =~= seq![
        dec_rep(page_index as nat),
        dec_rep(page_size as nat),
    ]);
}

/// Decoding an encoded occupy button token yields the point and page that
/// were encoded.
pub proof fn lemma_occupy_round_trip(ore_point_id: i32, page_index: u32, page_size: u32)
    requires
        ore_point_id >= 0,
    ensures
        token_spec(point_token(cmd_occupy(), ore_point_id, page_index, page_size)) == Ok::<
            Action,
            TokenError,
        >(Action::Occupy { ore_point_id, page_index, page_size }),
{
    let cmd = cmd_occupy();
    let dp = dec_rep(ore_point_id as nat);
    let di = dec_rep(page_index as nat);
    let ds = dec_rep(page_size as nat);
    lemma_dec_rep_digits(ore_point_id as nat);
    lemma_dec_rep_digits(page_index as nat);
    lemma_dec_rep_digits(page_size as nat);
    lemma_dec_val_of_rep(ore_point_id as nat);
    lemma_dec_val_of_rep(page_index as nat);
    lemma_dec_val_of_rep(page_size as nat);
    lemma_digits_no_colon(dp);
    lemma_digits_no_colon(di);
    lemma_digits_no_colon(ds);
    lemma_split_no_colon(ds);
    lemma_split_prefix(di, ds);
    lemma_split_prefix(dp, di + seq![':'] + ds);
    assert(forall|i: int| 0 <= i < cmd.len() ==> cmd[i] != ':');
    lemma_split_prefix(cmd, dp + seq![':'] + (di + seq![':'] + ds));
    let t = point_token(cmd, ore_point_id, page_index, page_size);
    assert(t =~= cmd + seq![':'] + (dp + seq![':'] + (di + seq![':'] + ds)));
    let parts = split_colons(t);
    assert(seq![dp] + (seq![di] + seq![ds]) =~~= seq![dp, di, ds]);
    assert(parts =~~= seq![cmd, dp, di, ds]);
    assert(cmd != cmd_list_points());
    assert(cmd != cmd_show_occupy());
    assert(cmd != cmd_show_challenge());
    assert(cmd != cmd_show_judge());
    assert(parts.drop_first() =~= seq![dp, di, ds]);
}

} // verus!
