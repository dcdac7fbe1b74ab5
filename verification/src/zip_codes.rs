//! A store of counts keyed by five-digit zip codes.

use vstd::hash_map::StringHashMap;
use vstd::prelude::*;
use vstd::string::StringExecFns;

verus! {

/// The number of zip codes: `"00000"` up to `"99999"`.
pub const ZIP_CODES: u32 = 100_000;

/// The character that stands for the decimal digit `d`.
pub open spec fn digit_char(d: int) -> char
    recommends
        0 <= d <= 9,
{
    if d == 0 {
        '0'
    } else if d == 1 {
        '1'
    } else if d == 2 {
        '2'
    } else if d == 3 {
        '3'
    } else if d == 4 {
        '4'
    } else if d == 5 {
        '5'
    } else if d == 6 {
        '6'
    } else if d == 7 {
        '7'
    } else if d == 8 {
        '8'
    } else {
        '9'
    }
}

/// Is `c` one of the decimal digits `'0'` to `'9'`?
pub open spec fn is_digit(c: char) -> bool {
    '0' <= c <= '9'
}

/// The number that the decimal digit `c` stands for.
pub open spec fn digit_value(c: char) -> int
    recommends
        is_digit(c),
{
    c as int - '0' as int
}

/// Is `key` a zip code, that is, exactly five decimal digits?
pub open spec fn is_zip_code(key: Seq<char>) -> bool {
    &&& key.len() == 5
    &&& forall|i: int| 0 <= i < 5 ==> is_digit(#[trigger] key[i])
}

/// The number that the five digits of a zip code spell.
pub open spec fn zip_value(key: Seq<char>) -> int
    recommends
        is_zip_code(key),
{
    10000 * digit_value(key[0]) + 1000 * digit_value(key[1]) + 100 * digit_value(key[2]) + 10
        * digit_value(key[3]) + digit_value(key[4])
}

/// The zip code that spells `n`: its decimal digits, padded with zeros on the
/// left to a width of five.
pub open spec fn zip_code(n: int) -> Seq<char>
    recommends
        0 <= n < ZIP_CODES,
{
    seq![
        digit_char(n / 10000 % 10),
        digit_char(n / 1000 % 10),
        digit_char(n / 100 % 10),
        digit_char(n / 10 % 10),
        digit_char(n % 10),
    ]
}

/// The zip codes whose number is below `bound`, each mapped to its number.
pub open spec fn zip_codes_below(bound: int) -> Map<Seq<char>, u32> {
    Map::new(|key: Seq<char>| is_zip_code(key) && zip_value(key) < bound, |key: Seq<char>| zip_value(key) as u32)
}

/// Every zip code, mapped to the number that it spells.
pub open spec fn zip_codes() -> Map<Seq<char>, u32> {
    Map::new(|key: Seq<char>| is_zip_code(key), |key: Seq<char>| zip_value(key) as u32)
}

/// What [`ZipCodeDatabase::populate`] makes of the contents `store`: every zip
/// code is mapped to its number, and every other key keeps what it had.
pub open spec fn populated(store: Map<Seq<char>, u32>) -> Map<Seq<char>, u32> {
    store.union_prefer_right(zip_codes())
}

/// The count that the contents `store` hold for `key`: what `key` is mapped
/// to, and zero for a key that is not there.
pub open spec fn population_in(store: Map<Seq<char>, u32>, key: Seq<char>) -> u32 {
    if store.contains_key(key) {
        store[key]
    } else {
        0
    }
}

/// `zip_code(n)` is a zip code, and it spells `n`.
pub proof fn lemma_zip_code_spells(n: int)
    requires
        0 <= n < ZIP_CODES,
    ensures
        is_zip_code(zip_code(n)),
        zip_value(zip_code(n)) == n,
{
    let key = zip_code(n);
    let (d0, d1, d2, d3, d4) = (n / 10000 % 10, n / 1000 % 10, n / 100 % 10, n / 10 % 10, n % 10);
    lemma_digits_of_number(n);
    lemma_digit_char(d0);
    lemma_digit_char(d1);
    lemma_digit_char(d2);
    lemma_digit_char(d3);
    lemma_digit_char(d4);
    assert(key[0] == digit_char(d0));
    assert(key[1] == digit_char(d1));
    assert(key[2] == digit_char(d2));
    assert(key[3] == digit_char(d3));
    assert(key[4] == digit_char(d4));
}

/// A zip code spells a number below [`ZIP_CODES`], and it is the only zip code
/// that spells this number.
pub proof fn lemma_zip_code_of_value(key: Seq<char>)
    requires
        is_zip_code(key),
    ensures
        0 <= zip_value(key) < ZIP_CODES,
        zip_code(zip_value(key)) == key,
{
    let (d0, d1, d2, d3, d4) = (
        digit_value(key[0]),
        digit_value(key[1]),
        digit_value(key[2]),
        digit_value(key[3]),
        digit_value(key[4]),
    );
    lemma_digit_value(key[0]);
    lemma_digit_value(key[1]);
    lemma_digit_value(key[2]);
    lemma_digit_value(key[3]);
    lemma_digit_value(key[4]);
    lemma_number_of_digits(d0, d1, d2, d3, d4);
    assert(zip_code(zip_value(key)) =~= key);
}

/// The five decimal digits of a number below 100000 are digits, and the number
/// is their weighted sum.
proof fn lemma_digits_of_number(n: int)
    requires
        0 <= n < 100000,
    ensures
        0 <= n / 10000 % 10 <= 9,
        0 <= n / 1000 % 10 <= 9,
        0 <= n / 100 % 10 <= 9,
        0 <= n / 10 % 10 <= 9,
        0 <= n % 10 <= 9,
        10000 * (n / 10000 % 10) + 1000 * (n / 1000 % 10) + 100 * (n / 100 % 10) + 10 * (n / 10
            % 10) + n % 10 == n,
{
    let a = n / 10;
    let b = n / 100;
    let c = n / 1000;
    let d = n / 10000;
    assert(b == a / 10);
    assert(c == b / 10);
    assert(d == c / 10);
    assert(0 <= d <= 9);
}

/// A weighted sum of five decimal digits is below 100000, and its decimal
/// digits are the five that went in.
proof fn lemma_number_of_digits(d0: int, d1: int, d2: int, d3: int, d4: int)
    requires
        0 <= d0 <= 9,
        0 <= d1 <= 9,
        0 <= d2 <= 9,
        0 <= d3 <= 9,
        0 <= d4 <= 9,
    ensures
        ({
            let n = 10000 * d0 + 1000 * d1 + 100 * d2 + 10 * d3 + d4;
            &&& 0 <= n < 100000
            &&& n / 10000 % 10 == d0
            &&& n / 1000 % 10 == d1
            &&& n / 100 % 10 == d2
            &&& n / 10 % 10 == d3
            &&& n % 10 == d4
        }),
{
    let n = 10000 * d0 + 1000 * d1 + 100 * d2 + 10 * d3 + d4;
    assert(n / 10 == 1000 * d0 + 100 * d1 + 10 * d2 + d3);
    assert(n / 100 == 100 * d0 + 10 * d1 + d2);
    assert(n / 1000 == 10 * d0 + d1);
    assert(n / 10000 == d0);
}

/// The character of a digit is a digit, and stands for it.
proof fn lemma_digit_char(d: int)
    requires
        0 <= d <= 9,
    ensures
        is_digit(digit_char(d)),
        digit_value(digit_char(d)) == d,
{
}

/// A digit stands for a number from 0 to 9, whose character it is.
proof fn lemma_digit_value(c: char)
    requires
        is_digit(c),
    ensures
        0 <= digit_value(c) <= 9,
        digit_char(digit_value(c)) == c,
{
}

/// The one-character text of the decimal digit `d`.
fn digit_text(d: u32) -> (text: &'static str)
    requires
        d <= 9,
    ensures
        text@ == seq![digit_char(d as int)],
{
    proof {
        reveal_strlit("0");
        reveal_strlit("1");
        reveal_strlit("2");
        reveal_strlit("3");
        reveal_strlit("4");
        reveal_strlit("5");
        reveal_strlit("6");
        reveal_strlit("7");
        reveal_strlit("8");
        reveal_strlit("9");
    }
    let text = if d == 0 {
        "0"
    } else if d == 1 {
        "1"
    } else if d == 2 {
        "2"
    } else if d == 3 {
        "3"
    } else if d == 4 {
        "4"
    } else if d == 5 {
        "5"
    } else if d == 6 {
        "6"
    } else if d == 7 {
        "7"
    } else if d == 8 {
        "8"
    } else {
        "9"
    };
    assert(text@ =~= seq![digit_char(d as int)]);
    text
}

/// Writes `n` as a zip code: in decimal, padded with zeros to five digits.
fn zip_code_text(n: u32) -> (out: String)
    requires
        n < ZIP_CODES,
    ensures
        out@ == zip_code(n as int),
{
    let mut out = String::new();
    out.append(digit_text(n / 10000 % 10));
    out.append(digit_text(n / 1000 % 10));
    out.append(digit_text(n / 100 % 10));
    out.append(digit_text(n / 10 % 10));
    out.append(digit_text(n % 10));
    assert(out@ =~= zip_code(n as int));
    out
}

/// Counts kept under text keys. The store starts out empty, and
/// [`ZipCodeDatabase::populate`] fills in one count for every zip code.
pub struct ZipCodeDatabase {
    population: StringHashMap<u32>,
}

impl View for ZipCodeDatabase {
    type V = Map<Seq<char>, u32>;

    closed spec fn view(&self) -> Map<Seq<char>, u32> {
        self.population@
    }
}

impl ZipCodeDatabase {
    /// Makes a store that holds no key.
    pub fn new() -> (out: ZipCodeDatabase)
        ensures
            out@ == Map::<Seq<char>, u32>::empty(),
    {
        ZipCodeDatabase { population: StringHashMap::new() }
    }

    /// Maps every zip code from `"00000"` to `"99999"` to the number that it
    /// spells. A zip code that was in the store before is overwritten; keys
    /// that are no zip codes stay as they are.
    pub fn populate(&mut self)
        ensures
            final(self)@ == populated(old(self)@),
    {
        let mut n: u32 = 0;
        while n < ZIP_CODES
            invariant
                n <= ZIP_CODES,
                self@ == old(self)@.union_prefer_right(zip_codes_below(n as int)),
            decreases ZIP_CODES - n,
        {
            let zip = zip_code_text(n);
            proof {
                lemma_zip_code_spells(n as int);
                let before = old(self)@.union_prefer_right(zip_codes_below(n as int));
                let after = old(self)@.union_prefer_right(zip_codes_below(n + 1));
                assert forall|key: Seq<char>|
                    is_zip_code(key) && zip_value(key) == n implies key == zip_code(n as int) by {
                    lemma_zip_code_of_value(key);
                }
                assert(before.insert(zip@, n) =~= after);
            }
            self.population.insert(zip, n);
            n += 1;
        }
        proof {
            assert forall|key: Seq<char>| is_zip_code(key) implies zip_value(key) < ZIP_CODES by {
                lemma_zip_code_of_value(key);
            }
            assert(zip_codes_below(ZIP_CODES as int) =~= zip_codes());
        }
    }

    /// Looks up the count kept under `zip`. The key has to match in full; a
    /// key that is not in the store counts as zero.
    pub fn population_of(&self, zip: &str) -> (count: u32)
        ensures
            count == population_in(self@, zip@),
    {
        match self.population.get(zip) {
            Some(count) => *count,
            None => 0,
        }
    }
}

/// Once a store is populated, the count of the zip code that spells `n` is
/// `n`, whatever the store held before.
pub proof fn lemma_populated_zip_code(store: Map<Seq<char>, u32>, n: int)
    requires
        0 <= n < ZIP_CODES,
    ensures
        population_in(populated(store), zip_code(n)) == n,
{
    lemma_zip_code_spells(n);
}

/// Populating a store changes nothing for a key that is no zip code: its
/// count is what it was, and zero if the key was not there.
pub proof fn lemma_populated_other_key(store: Map<Seq<char>, u32>, key: Seq<char>)
    requires
        !is_zip_code(key),
    ensures
        populated(store).contains_key(key) == store.contains_key(key),
        population_in(populated(store), key) == population_in(store, key),
{
}

/// Populating a store a second time leaves it as the first time left it.
pub proof fn lemma_populate_again(store: Map<Seq<char>, u32>)
    ensures
        populated(populated(store)) == populated(store),
{
    assert(populated(populated(store)) =~= populated(store));
}

} // verus!
