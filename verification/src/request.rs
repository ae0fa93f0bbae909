use vstd::prelude::*;

verus! {

/// Query of the exchange's spot order-book endpoint, up to the symbol.
pub const ORDERBOOK_QUERY: &'static str = "https://api.bybit.com/v5/market/orderbook?category=spot&symbol=";

/// Separator between the symbol and the depth limit in the query.
pub const LIMIT_PARAM: &'static str = "&limit=";

/// The character of a decimal digit.
pub open spec fn digit_char(d: nat) -> char {
    seq!['0', '1', '2', '3', '4', '5', '6', '7', '8', '9'][d as int]
}

/// Decimal notation of a natural number: most significant digit first, no
/// leading zeros, and `"0"` for zero.
pub open spec fn decimal(n: nat) -> Seq<char>
    decreases n,
{
    if n < 10 {
        seq![digit_char(n)]
    } else {
        decimal(n / 10).push(digit_char(n % 10))
    }
}

/// The number that a decimal digit character stands for; 10 for any other
/// character.
pub open spec fn digit_value(c: char) -> int {
    if c == '0' {
        0
    } else if c == '1' {
        1
    } else if c == '2' {
        2
    } else if c == '3' {
        3
    } else if c == '4' {
        4
    } else if c == '5' {
        5
    } else if c == '6' {
        6
    } else if c == '7' {
        7
    } else if c == '8' {
        8
    } else if c == '9' {
        9
    } else {
        10
    }
}

/// The number that a string of decimal digits, most significant first,
/// stands for.
pub open spec fn digits_value(s: Seq<char>) -> int
    decreases s.len(),
{
    if s.len() == 0 {
        0
    } else {
        digits_value(s.drop_last()) * 10 + digit_value(s.last())
    }
}

/// A canonical decimal numeral: at least one character, every character a
/// decimal digit, and no leading zero unless the numeral is `"0"` itself.
pub open spec fn is_numeral(s: Seq<char>) -> bool {
    &&& s.len() >= 1
    &&& forall|k: int| 0 <= k < s.len() ==> 0 <= #[trigger] digit_value(s[k]) < 10
    &&& (s.len() == 1 || s[0] != '0')
}

/// The address of the order-book request for `symbol` with depth `limit`.
pub open spec fn orderbook_address(symbol: Seq<char>, limit: nat) -> Seq<char> {
    ORDERBOOK_QUERY@ + symbol + LIMIT_PARAM@ + decimal(limit)
}

fn digit_str(d: usize) -> (s: &'static str)
    requires
        d < 10,
    ensures
        s@ == seq![digit_char(d as nat)],
{
    proof {
        reveal_strlit("0");
        reveal_strlit("1");
        reveal_strlit("2");
        reveal_strlit("3");
        reveal_strlit("4");
        reveal_strlit("5");
        reveal_strlit("6");
        reveal_strlit("7");
        reveal_strlit("8");
        reveal_strlit("9");
    }
    match d {
        0 => "0",
        1 => "1",
        2 => "2",
        3 => "3",
        4 => "4",
        5 => "5",
        6 => "6",
        7 => "7",
        8 => "8",
        _ => "9",
    }
}

/// Decimal notation of `n`, as `n.to_string()` writes it.
pub fn decimal_string(n: usize) -> (s: String)
    ensures
        s@ == decimal(n as nat),
        is_numeral(s@),
        digits_value(s@) == n,
    decreases n,
{
    proof {
        lemma_decimal_reads_back(n as nat);
    }
    if n < 10 {
        String::from_str(digit_str(n))
    } else {
        let mut s = decimal_string(n / 10);
        s.append(digit_str(n % 10));
        s
    }
}

/// The address that the order-book request for `symbol` with depth `limit`
/// is sent to.
pub fn orderbook_url(symbol: &str, limit: usize) -> (url: String)
    ensures
        url@ == orderbook_address(symbol@, limit as nat),
        ({
            let prefix = ORDERBOOK_QUERY@ + symbol@ + LIMIT_PARAM@;
            &&& prefix.len() < url@.len()
            &&& url@.subrange(0, prefix.len() as int) == prefix
            &&& is_numeral(url@.subrange(prefix.len() as int, url@.len() as int))
            &&& digits_value(url@.subrange(prefix.len() as int, url@.len() as int)) == limit
        }),
{
    let mut url = String::from_str(ORDERBOOK_QUERY);
    url.append(symbol);
    url.append(LIMIT_PARAM);
    let digits = decimal_string(limit);
    url.append(digits.as_str());
    proof {
        let prefix = ORDERBOOK_QUERY@ + symbol@ + LIMIT_PARAM@;
        assert(url@.subrange(0, prefix.len() as int) =~= prefix);
        assert(url@.subrange(prefix.len() as int, url@.len() as int) =~= digits@);
    }
    url
}

proof fn lemma_digit_char_value(d: nat)
    requires
        d < 10,
    ensures
        digit_value(digit_char(d)) == d,
        digit_char(d) == '0' <==> d == 0,
{
    let digits = seq!['0', '1', '2', '3', '4', '5', '6', '7', '8', '9'];
    assert(digit_char(d) == digits[d as int]);
    if d == 0 {
        assert(digits[0] == '0');
    } else if d == 1 {
        assert(digits[1] == '1');
    } else if d == 2 {
        assert(digits[2] == '2');
    } else if d == 3 {
        assert(digits[3] == '3');
    } else if d == 4 {
        assert(digits[4] == '4');
    } else if d == 5 {
        assert(digits[5] == '5');
    } else if d == 6 {
        assert(digits[6] == '6');
    } else if d == 7 {
        assert(digits[7] == '7');
    } else if d == 8 {
        assert(digits[8] == '8');
    } else {
        assert(digits[9] == '9');
    }
}

/// Decimal notation reads back as the number it was written for: `decimal(n)`
/// is a canonical numeral (digits only, no leading zero unless it is `"0"`)
/// whose value, most significant digit first, is `n`.
pub proof fn lemma_decimal_reads_back(n: nat)
    ensures
        is_numeral(decimal(n)),
        digits_value(decimal(n)) == n,
    decreases n,
{
    if n < 10 {
        lemma_digit_char_value(n);
        let s = decimal(n);
        assert(s.len() == 1 && s[0] == digit_char(n));
        assert(s.drop_last() =~= Seq::<char>::empty());
        assert(digits_value(s) == digits_value(s.drop_last()) * 10 + digit_value(s.last()));
        assert forall|k: int| 0 <= k < s.len() implies 0 <= #[trigger] digit_value(s[k]) < 10 by {
            assert(k == 0);
        }
    } else {
        lemma_decimal_reads_back(n / 10);
        lemma_digit_char_value(n % 10);
        let head = decimal(n / 10);
        let s = decimal(n);
        assert(s == head.push(digit_char(n % 10)));
        assert(s.drop_last() =~= head);
        assert(digits_value(s) == digits_value(head) * 10 + digit_value(digit_char(n % 10)));
        assert(s[0] == head[0]);
        if head.len() == 1 {
            assert(head.drop_last() =~= Seq::<char>::empty());
            assert(digits_value(head) == digits_value(head.drop_last()) * 10 + digit_value(
                head.last(),
            ));
            assert(head[0] != '0');
        }
        assert forall|k: int| 0 <= k < s.len() implies 0 <= #[trigger] digit_value(s[k]) < 10 by {
            if k < head.len() {
                assert(s[k] == head[k]);
            }
        }
    }
}

} // verus!
