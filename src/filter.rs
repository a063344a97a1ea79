//! Log filters: block range, block hash, address and topic predicates.
use vstd::prelude::*;
use vstd::string::StrSliceExecFns;

use crate::types::{H160, H256, U256};

verus! {

/// A block selector of a query.
#[derive(Clone, Copy, Debug, PartialEq, Eq)]
pub enum BlockNumber {
    Hash { hash: H256, require_canonical: bool },
    Num(u64),
    Latest,
    Earliest,
    Pending,
}

impl BlockNumber {
    /// The block number, when the selector is a number.
    pub fn to_min_block_num(&self) -> (r: Option<u64>)
        ensures
            r == (match *self {
                BlockNumber::Num(x) => Some(x),
                _ => None::<u64>,
            }),
    {
        match *self {
            BlockNumber::Num(x) => Some(x),
            _ => None,
        }
    }
}

impl Default for BlockNumber {
    fn default() -> (r: BlockNumber)
        ensures
            r == BlockNumber::Latest,
    {
        BlockNumber::Latest
    }
}

/// The value of a digit in a radix, if the character is one: `0`-`9`, then `a`-`z` or `A`-`Z`
/// from ten on.
pub open spec fn digit_of(c: char, radix: nat) -> Option<nat> {
    let d: int = if '0' <= c && c <= '9' {
        c as int - '0' as int
    } else if 'a' <= c && c <= 'z' {
        c as int - 'a' as int + 10
    } else if 'A' <= c && c <= 'Z' {
        c as int - 'A' as int + 10
    } else {
        36
    };
    if d < radix {
        Some(d as nat)
    } else {
        None
    }
}

/// The value of a string of digits, most significant first (`None`: a character is no digit).
pub open spec fn digits_value(s: Seq<char>, radix: nat) -> Option<nat>
    decreases s.len(),
{
    if s.len() == 0 {
        Some(0)
    } else {
        match (digits_value(s.drop_last(), radix), digit_of(s.last(), radix)) {
            (Some(v), Some(d)) => Some(v * radix + d),
            _ => None,
        }
    }
}

/// What an unsigned integer parse reads: an optional `+`, then at least one digit.
pub open spec fn radix_value(s: Seq<char>, radix: nat) -> Option<nat> {
    let body = if s.len() > 0 && s[0] == '+' {
        s.drop_first()
    } else {
        s
    };
    if body.len() == 0 {
        None
    } else {
        digits_value(body, radix)
    }
}

/// The value of one digit character in a radix.
fn digit_value(c: char, radix: u32) -> (r: Option<u64>)
    requires
        2 <= radix <= 36,
    ensures
        match digit_of(c, radix as nat) {
            Some(d) => r == Some(d as u64),
            None => r is None,
        },
{
    let code = c as u32;
    let d: u32 = if 48 <= code && code <= 57 {
        code - 48
    } else if 97 <= code && code <= 122 {
        code - 97 + 10
    } else if 65 <= code && code <= 90 {
        code - 65 + 10
    } else {
        36
    };
    if d < radix {
        Some(d as u64)
    } else {
        None
    }
}

/// Prefixes of a string of digits have values, no greater than the whole one's.
proof fn lemma_digits_prefix(s: Seq<char>, radix: nat, k: int)
    requires
        radix >= 2,
        0 <= k <= s.len(),
        digits_value(s, radix) is Some,
    ensures
        digits_value(s.subrange(0, k), radix) is Some,
        digits_value(s.subrange(0, k), radix)->0 <= digits_value(s, radix)->0,
    decreases s.len(),
{
    if k == s.len() {
        assert(s.subrange(0, k) =~= s);
    } else {
        let p = s.drop_last();
        assert(p.subrange(0, k) =~= s.subrange(0, k));
        lemma_digits_prefix(p, radix, k);
        let v = digits_value(p, radix)->0;
        let d = digit_of(s.last(), radix)->0;
        assert(v <= v * radix + d) by (nonlinear_arith)
            requires
                radix >= 2,
        ;
    }
}

/// Parses an unsigned number as `u64::from_str_radix` does: an optional `+`, then at least
/// one digit of the radix, the value within `u64`.
#[verifier::loop_isolation(false)]
fn parse_u64(s: &str, radix: u32) -> (r: Option<u64>)
    requires
        2 <= radix <= 36,
    ensures
        r == u64_of(s@, radix as nat),
{
    let n = s.unicode_len();
    let start: usize = if n > 0 && s.get_char(0) == '+' {
        1
    } else {
        0
    };
    let ghost body = if s@.len() > 0 && s@[0] == '+' {
        s@.drop_first()
    } else {
        s@
    };
    assert(body =~= s@.subrange(start as int, n as int));
    if start == n {
        return None;
    }
    let mut value: u64 = 0;
    let mut i: usize = start;
    while i < n
        invariant
            start <= i <= n,
            n == s@.len(),
            2 <= radix <= 36,
            body == s@.subrange(start as int, n as int),
            digits_value(body.subrange(0, i - start), radix as nat) == Some(value as nat),
        decreases n - i,
    {
        let ghost k = i - start;
        proof {
            let p = body.subrange(0, k + 1);
            assert(p.drop_last() =~= body.subrange(0, k as int));
            assert(p.last() == s@[i as int]);
        }
        let d = match digit_value(s.get_char(i), radix) {
            Some(d) => d,
            None => {
                proof {
                    if digits_value(body, radix as nat) is Some {
                        lemma_digits_prefix(body, radix as nat, k + 1);
                    }
                }
                return None;
            },
        };
        let next = match value.checked_mul(radix as u64) {
            Some(m) => m.checked_add(d),
            None => None,
        };
        match next {
            Some(v) => {
                value = v;
            },
            None => {
                proof {
                    if digits_value(body, radix as nat) is Some {
                        lemma_digits_prefix(body, radix as nat, k + 1);
                        assert(value as nat * radix as nat + d as nat > u64::MAX);
                    }
                }
                return None;
            },
        }
        i = i + 1;
    }
    assert(body.subrange(0, n - start) =~= body);
    Some(value)
}

/// Why a block selector does not parse.
#[derive(Clone, Debug, PartialEq, Eq)]
pub enum BlockNumberParseError {
    /// The digits after `0x` are not a hexadecimal `u64`.
    InvalidHexNumber,
    /// The string is no keyword, has no `0x` prefix and is not a decimal `u64`.
    NonDecimal,
    /// A `blockNumber` field lacks its `0x` prefix.
    MissingHexPrefix,
    /// An object holds a field of another name.
    UnknownKey(String),
    /// An object holds neither a block number nor a block hash.
    InvalidInput,
}

/// The string starts with `0x`.
pub open spec fn has_hex_prefix(s: Seq<char>) -> bool {
    s.len() >= 2 && s[0] == '0' && s[1] == 'x'
}

/// The number a `u64` parse gives, when it fits.
pub open spec fn u64_of(s: Seq<char>, radix: nat) -> Option<u64> {
    match radix_value(s, radix) {
        Some(v) => if v <= u64::MAX {
            Some(v as u64)
        } else {
            None
        },
        None => None,
    }
}

/// What a block selector string stands for: a keyword, a `0x`-prefixed hexadecimal number
/// or a decimal number.
pub open spec fn block_number_of_str(s: Seq<char>) -> Option<BlockNumber> {
    if s == "latest"@ {
        Some(BlockNumber::Latest)
    } else if s == "earliest"@ {
        Some(BlockNumber::Earliest)
    } else if s == "pending"@ {
        Some(BlockNumber::Pending)
    } else if has_hex_prefix(s) {
        match u64_of(s.subrange(2, s.len() as int), 16) {
            Some(n) => Some(BlockNumber::Num(n)),
            None => None,
        }
    } else {
        match u64_of(s, 10) {
            Some(n) => Some(BlockNumber::Num(n)),
            None => None,
        }
    }
}

fn str_equals(a: &str, b: &str) -> (r: bool)
    ensures
        r == (a@ == b@),
{
    let n = a.unicode_len();
    if n != b.unicode_len() {
        return false;
    }
    let mut i: usize = 0;
    while i < n
        invariant
            n == a@.len() == b@.len(),
            i <= n,
            forall|j: int| 0 <= j < i ==> a@[j] == b@[j],
        decreases n - i,
    {
        if a.get_char(i) != b.get_char(i) {
            return false;
        }
        i = i + 1;
    }
    assert(a@ =~= b@);
    true
}

fn starts_with_hex_prefix(s: &str) -> (r: bool)
    ensures
        r == has_hex_prefix(s@),
{
    let n = s.unicode_len();
    n >= 2 && s.get_char(0) == '0' && s.get_char(1) == 'x'
}

impl BlockNumber {
    /// Reads a block selector: `latest`, `earliest`, `pending`, a `0x`-prefixed hexadecimal
    /// number or a decimal number.
    pub fn from_rpc_str(value: &str) -> (r: Result<BlockNumber, BlockNumberParseError>)
        ensures
            match block_number_of_str(value@) {
                Some(b) => r == Ok::<BlockNumber, BlockNumberParseError>(b),
                None => r is Err && (if has_hex_prefix(value@) {
                    r->Err_0 is InvalidHexNumber
                } else {
                    r->Err_0 is NonDecimal
                }),
            },
    {
        if str_equals(value, "latest") {
            return Ok(BlockNumber::Latest);
        }
        if str_equals(value, "earliest") {
            return Ok(BlockNumber::Earliest);
        }
        if str_equals(value, "pending") {
            return Ok(BlockNumber::Pending);
        }
        if starts_with_hex_prefix(value) {
            let n = value.unicode_len();
            let digits = value.substring_char(2, n);
            match parse_u64(digits, 16) {
                Some(x) => Ok(BlockNumber::Num(x)),
                None => Err(BlockNumberParseError::InvalidHexNumber),
            }
        } else {
            match parse_u64(value, 10) {
                Some(x) => Ok(BlockNumber::Num(x)),
                None => Err(BlockNumberParseError::NonDecimal),
            }
        }
    }
}

/// One field of a block selector given as an object.
#[derive(Clone, Debug)]
pub enum BlockNumberField {
    BlockNumber(String),
    BlockHash(H256),
    RequireCanonical(bool),
    Unknown(String),
}

/// What reading one more field of a block selector object decides.
#[derive(Debug)]
pub enum FieldStep {
    /// Read the next field, if any, then `finish`.
    Continue,
    /// The selector is decided; later fields are not read.
    Done(Result<BlockNumber, BlockNumberParseError>),
}

/// A block selector object read so far.
#[derive(Clone, Copy, Debug)]
pub struct BlockNumberObject {
    pub block_hash: Option<H256>,
    pub require_canonical: bool,
}

impl BlockNumberObject {
    pub fn new() -> (r: Self)
        ensures
            r.block_hash is None,
            !r.require_canonical,
    {
        BlockNumberObject { block_hash: None, require_canonical: false }
    }

    /// Takes one field: a `blockNumber` decides at once (it must be `0x`-prefixed
    /// hexadecimal), an unknown key is an error, the others are remembered.
    pub fn on_field(&mut self, field: BlockNumberField) -> (r: FieldStep)
        ensures
            match field {
                BlockNumberField::BlockNumber(v) => {
                    &&& *final(self) == *old(self)
                    &&& if !has_hex_prefix(v@) {
                        r is Done && r->Done_0 is Err && r->Done_0->Err_0 is MissingHexPrefix
                    } else {
                        match u64_of(v@.subrange(2, v@.len() as int), 16) {
                            Some(n) => r is Done && r->Done_0 == Ok::<
                                BlockNumber,
                                BlockNumberParseError,
                            >(BlockNumber::Num(n)),
                            None => r is Done && r->Done_0 is Err && r->Done_0->Err_0 is InvalidHexNumber,
                        }
                    }
                },
                BlockNumberField::BlockHash(h) => r is Continue && final(self).block_hash == Some(h)
                    && final(self).require_canonical == old(self).require_canonical,
                BlockNumberField::RequireCanonical(b) => r is Continue && final(self).require_canonical
                    == b && final(self).block_hash == old(self).block_hash,
                BlockNumberField::Unknown(k) => *final(self) == *old(self) && r is Done
                    && r->Done_0 is Err && r->Done_0->Err_0 is UnknownKey,
            },
    {
        match field {
            BlockNumberField::BlockNumber(value) => {
                if starts_with_hex_prefix(value.as_str()) {
                    let n = value.as_str().unicode_len();
                    let digits = value.as_str().substring_char(2, n);
                    match parse_u64(digits, 16) {
                        Some(x) => FieldStep::Done(Ok(BlockNumber::Num(x))),
                        None => FieldStep::Done(Err(BlockNumberParseError::InvalidHexNumber)),
                    }
                } else {
                    FieldStep::Done(Err(BlockNumberParseError::MissingHexPrefix))
                }
            },
            BlockNumberField::BlockHash(h) => {
                self.block_hash = Some(h);
                FieldStep::Continue
            },
            BlockNumberField::RequireCanonical(b) => {
                self.require_canonical = b;
                FieldStep::Continue
            },
            BlockNumberField::Unknown(key) => FieldStep::Done(
                Err(BlockNumberParseError::UnknownKey(key)),
            ),
        }
    }

    /// After the last field: a block hash makes a hash selector, otherwise the input is
    /// invalid.
    pub fn finish(&self) -> (r: Result<BlockNumber, BlockNumberParseError>)
        ensures
            match self.block_hash {
                Some(h) => r == Ok::<BlockNumber, BlockNumberParseError>(
                    BlockNumber::Hash { hash: h, require_canonical: self.require_canonical },
                ),
                None => r is Err && r->Err_0 is InvalidInput,
            },
    {
        match self.block_hash {
            Some(hash) => Ok(BlockNumber::Hash { hash, require_canonical: self.require_canonical }),
            None => Err(BlockNumberParseError::InvalidInput),
        }
    }
}

/// One value, a list of values, or nothing.
#[derive(Clone, Debug)]
pub enum VariadicValue<T> {
    Single(T),
    Multiple(Vec<T>),
    Null,
}

/// An address predicate.
pub type FilterAddress = VariadicValue<H160>;

/// A topic predicate: per position, one value, a list of alternatives, or a wildcard.
pub type Topic = VariadicValue<Option<VariadicValue<Option<H256>>>>;

/// One expanded topic combination.
pub type FlatTopic = VariadicValue<Option<H256>>;

/// A log query.
#[derive(Clone, Debug)]
pub struct Filter {
    pub from_block: Option<BlockNumber>,
    pub to_block: Option<BlockNumber>,
    pub block_hash: Option<H256>,
    pub address: Option<FilterAddress>,
    pub topics: Option<Topic>,
}

/// A log as a query returns it.
#[derive(Clone, Debug)]
pub struct Log {
    pub address: H160,
    pub topics: Vec<H256>,
    pub data: Vec<u8>,
    pub block_hash: Option<H256>,
    pub block_number: Option<U256>,
    pub transaction_hash: Option<H256>,
    pub transaction_index: Option<U256>,
    pub log_index: Option<U256>,
    pub transaction_log_index: Option<U256>,
    pub removed: bool,
}

/// The alternatives that one position of a topic predicate admits (`None`: any value).
pub open spec fn position_alternatives(p: Option<FlatTopic>) -> Seq<Option<H256>> {
    match p {
        Some(VariadicValue::Single(s)) => seq![s],
        Some(VariadicValue::Multiple(v)) => v@,
        Some(VariadicValue::Null) => seq![None],
        None => seq![None],
    }
}

/// Each sequence of `res` extended by each element of `l`, in that nesting order.
pub open spec fn extend_each(res: Seq<Seq<Option<H256>>>, l: Seq<Option<H256>>) -> Seq<
    Seq<Option<H256>>,
>
    decreases res.len(),
{
    if res.len() == 0 {
        seq![]
    } else {
        extend_each(res.drop_last(), l) + l.map_values(|el: Option<H256>| res.last().push(el))
    }
}

/// The cartesian product of `lists`, the first list varying slowest.
pub open spec fn cartesian(lists: Seq<Seq<Option<H256>>>) -> Seq<Seq<Option<H256>>>
    decreases lists.len(),
{
    if lists.len() == 0 {
        seq![]
    } else if lists.len() == 1 {
        lists[0].map_values(|x: Option<H256>| seq![x])
    } else {
        extend_each(cartesian(lists.drop_last()), lists.last())
    }
}

/// The views of a list of vectors.
pub open spec fn views(v: Seq<Vec<Option<H256>>>) -> Seq<Seq<Option<H256>>> {
    v.map_values(|x: Vec<Option<H256>>| x@)
}

/// `f` is a list combination holding exactly `c`.
pub open spec fn is_combination(f: FlatTopic, c: Seq<Option<H256>>) -> bool {
    match f {
        VariadicValue::Multiple(v) => v@ == c,
        _ => false,
    }
}

/// `a` and `b` hold the same values.
pub open spec fn same_flat(a: FlatTopic, b: FlatTopic) -> bool {
    match (a, b) {
        (VariadicValue::Single(x), VariadicValue::Single(y)) => x == y,
        (VariadicValue::Multiple(x), VariadicValue::Multiple(y)) => x@ == y@,
        (VariadicValue::Null, VariadicValue::Null) => true,
        _ => false,
    }
}

/// The expansion of a topic predicate into combinations.
pub open spec fn flattened(topic: Topic, r: Seq<FlatTopic>) -> bool {
    match topic {
        VariadicValue::Multiple(multi) => {
            let c = cartesian(multi@.map_values(|p: Option<FlatTopic>| position_alternatives(p)));
            &&& r.len() == c.len()
            &&& forall|i: int| 0 <= i < r.len() ==> is_combination(#[trigger] r[i], c[i])
        },
        VariadicValue::Single(Some(single)) => r.len() == 1 && same_flat(r[0], single),
        VariadicValue::Single(None) => r.len() == 0,
        VariadicValue::Null => r.len() == 1 && r[0] is Null,
    }
}

/// The positions a combination constrains, in order (`None`: any value).
pub open spec fn combination_of(f: FlatTopic) -> Seq<Option<H256>> {
    match f {
        VariadicValue::Single(x) => seq![x],
        VariadicValue::Multiple(v) => v@,
        VariadicValue::Null => seq![],
    }
}

/// Every concrete position of `c` is present in `topics` with that value.
pub open spec fn combination_matches(c: Seq<Option<H256>>, topics: Seq<H256>) -> bool {
    forall|i: int|
        0 <= i < c.len() && #[trigger] c[i] is Some ==> i < topics.len() && topics[i] == c[i]->0
}

/// A log's topics pass when there is no combination, or when one of them matches.
pub open spec fn topics_match(flats: Seq<FlatTopic>, topics: Seq<H256>) -> bool {
    flats.len() == 0 || exists|i: int|
        0 <= i < flats.len() && combination_matches(combination_of(#[trigger] flats[i]), topics)
}

/// The block number passes the filter's numeric bounds; an `Earliest` upper bound passes none.
pub open spec fn block_in_range(f: Filter, n: u64) -> bool {
    &&& match f.from_block {
        Some(BlockNumber::Num(from)) => from <= n,
        _ => true,
    }
    &&& match f.to_block {
        Some(BlockNumber::Num(to)) => n <= to,
        Some(BlockNumber::Earliest) => false,
        _ => true,
    }
}

/// An `Earliest` upper bound rejects every block number, whatever the lower bound.
pub proof fn lemma_earliest_upper_bound_rejects_all(f: Filter, n: u64)
    requires
        f.to_block == Some(BlockNumber::Earliest),
    ensures
        !block_in_range(f, n),
{
}

/// Numeric bounds accept exactly the numbers between them, both included.
pub proof fn lemma_numeric_bounds(f: Filter, from: u64, to: u64, n: u64)
    requires
        f.from_block == Some(BlockNumber::Num(from)),
        f.to_block == Some(BlockNumber::Num(to)),
    ensures
        block_in_range(f, n) <==> from <= n <= to,
{
}

/// The block hash passes the filter's pinned hash, if any.
pub open spec fn block_hash_matches(f: Filter, h: H256) -> bool {
    match f.block_hash {
        Some(x) => x == h,
        None => true,
    }
}

/// The address passes the filter's address predicate, if any.
pub open spec fn address_matches(f: Filter, a: H160) -> bool {
    match f.address {
        Some(VariadicValue::Single(x)) => x == a,
        Some(VariadicValue::Multiple(v)) => v@.contains(a),
        _ => true,
    }
}

/// A combination with each wildcard replaced by the log's topic at that position.
pub open spec fn replaced_topics(c: Seq<Option<H256>>, topics: Seq<H256>) -> Seq<H256> {
    Seq::new(
        c.len(),
        |k: int|
            match c[k] {
                Some(v) => v,
                None => topics[k],
            },
    )
}

/// A copy of a list of topic alternatives.
fn copy_alternatives(v: &Vec<Option<H256>>) -> (r: Vec<Option<H256>>)
    ensures
        r@ == v@,
{
    let mut r: Vec<Option<H256>> = Vec::new();
    let mut i: usize = 0;
    while i < v.len()
        invariant
            i <= v.len(),
            r@ == v@.subrange(0, i as int),
        decreases v.len() - i,
    {
        r.push(v[i]);
        i = i + 1;
        assert(r@ =~= v@.subrange(0, i as int));
    }
    assert(v@.subrange(0, v@.len() as int) =~= v@);
    r
}

/// A copy of a flattened topic.
fn copy_flat(f: &FlatTopic) -> (r: FlatTopic)
    ensures
        same_flat(r, *f),
{
    match f {
        VariadicValue::Single(x) => VariadicValue::Single(*x),
        VariadicValue::Multiple(v) => VariadicValue::Multiple(copy_alternatives(v)),
        VariadicValue::Null => VariadicValue::Null,
    }
}

proof fn lemma_extend_each_step(res: Seq<Seq<Option<H256>>>, l: Seq<Option<H256>>, k: int)
    requires
        0 <= k < res.len(),
    ensures
        extend_each(res.subrange(0, k + 1), l) == extend_each(res.subrange(0, k), l) + l.map_values(
            |el: Option<H256>| res[k].push(el),
        ),
{
    let s = res.subrange(0, k + 1);
    assert(s.drop_last() =~= res.subrange(0, k));
    assert(s.last() == res[k]);
}

/// Extends every list of `res` by every element of `l`.
fn extend_all(res: &Vec<Vec<Option<H256>>>, l: &Vec<Option<H256>>) -> (r: Vec<Vec<Option<H256>>>)
    ensures
        views(r@) == extend_each(views(res@), l@),
{
    let mut tmp: Vec<Vec<Option<H256>>> = Vec::new();
    let mut k: usize = 0;
    while k < res.len()
        invariant
            k <= res.len(),
            views(tmp@) == extend_each(views(res@).subrange(0, k as int), l@),
        decreases res.len() - k,
    {
        let ghost before = views(tmp@);
        let mut m: usize = 0;
        while m < l.len()
            invariant
                k < res.len(),
                m <= l.len(),
                views(tmp@) == before + l@.subrange(0, m as int).map_values(
                    |el: Option<H256>| res@[k as int]@.push(el),
                ),
            decreases l.len() - m,
        {
            let mut e = copy_alternatives(&res[k]);
            e.push(l[m]);
            let ghost old_tmp = tmp@;
            let ghost ev = e@;
            tmp.push(e);
            proof {
                assert(views(tmp@) =~= views(old_tmp).push(ev));
                assert(l@.subrange(0, m + 1).map_values(
                    |el: Option<H256>| res@[k as int]@.push(el),
                ) =~= l@.subrange(0, m as int).map_values(
                    |el: Option<H256>| res@[k as int]@.push(el),
                ).push(ev));
            }
            m = m + 1;
            assert(views(tmp@) =~= before + l@.subrange(0, m as int).map_values(
                |el: Option<H256>| res@[k as int]@.push(el),
            ));
        }
        proof {
            assert(l@.subrange(0, l@.len() as int) =~= l@);
            lemma_extend_each_step(views(res@), l@, k as int);
            assert(views(res@)[k as int] == res@[k as int]@);
        }
        k = k + 1;
    }
    assert(views(res@).subrange(0, res@.len() as int) =~= views(res@));
    tmp
}

/// The cartesian product of `lists`, the first list varying slowest.
fn cartesian_product(lists: &Vec<Vec<Option<H256>>>) -> (r: Vec<Vec<Option<H256>>>)
    ensures
        views(r@) == cartesian(views(lists@)),
{
    let mut res: Vec<Vec<Option<H256>>> = Vec::new();
    if lists.len() == 0 {
        assert(views(res@) =~= cartesian(views(lists@)));
        return res;
    }
    let first = &lists[0];
    let mut i: usize = 0;
    while i < first.len()
        invariant
            i <= first.len(),
            views(res@) == first@.subrange(0, i as int).map_values(|x: Option<H256>| seq![x]),
        decreases first.len() - i,
    {
        let mut one: Vec<Option<H256>> = Vec::new();
        one.push(first[i]);
        let ghost old_res = res@;
        let ghost ov = one@;
        res.push(one);
        proof {
            assert(ov =~= seq![first@[i as int]]);
            assert(views(res@) =~= views(old_res).push(ov));
            assert(first@.subrange(0, i + 1).map_values(|x: Option<H256>| seq![x])
                =~= first@.subrange(0, i as int).map_values(|x: Option<H256>| seq![x]).push(ov));
        }
        i = i + 1;
        assert(views(res@) =~= first@.subrange(0, i as int).map_values(
            |x: Option<H256>| seq![x],
        ));
    }
    assert(first@.subrange(0, first@.len() as int) =~= first@);
    assert(views(lists@).subrange(0, 1) =~= seq![first@]);
    let mut j: usize = 1;
    while j < lists.len()
        invariant
            1 <= j <= lists.len(),
            views(res@) == cartesian(views(lists@).subrange(0, j as int)),
        decreases lists.len() - j,
    {
        res = extend_all(&res, &lists[j]);
        proof {
            let s = views(lists@).subrange(0, j + 1);
            assert(s.drop_last() =~= views(lists@).subrange(0, j as int));
            assert(s.last() == lists@[j as int]@);
        }
        j = j + 1;
    }
    assert(views(lists@).subrange(0, lists@.len() as int) =~= views(lists@));
    res
}

/// A filter together with its expanded topic combinations.
#[derive(Debug)]
pub struct FilteredParams {
    pub filter: Option<Filter>,
    pub flat_topics: Vec<FlatTopic>,
}

impl Default for FilteredParams {
    fn default() -> (r: FilteredParams)
        ensures
            r.filter is None,
            r.flat_topics_view().len() == 0,
    {
        FilteredParams { filter: None, flat_topics: Vec::new() }
    }
}

impl FilteredParams {
    /// The expanded topic combinations.
    pub open spec fn flat_topics_view(&self) -> Seq<FlatTopic> {
        self.flat_topics@
    }

    /// Keeps the filter and expands its topic predicate.
    pub fn new(f: Option<Filter>) -> (r: FilteredParams)
        ensures
            r.filter == f,
            match f {
                Some(fl) => match fl.topics {
                    Some(t) => flattened(t, r.flat_topics_view()),
                    None => r.flat_topics_view().len() == 0,
                },
                None => r.flat_topics_view().len() == 0,
            },
    {
        match f {
            Some(fl) => {
                let flat_topics = match &fl.topics {
                    Some(t) => Self::flatten(t),
                    None => Vec::new(),
                };
                FilteredParams { filter: Some(fl), flat_topics }
            },
            None => Self::default(),
        }
    }

    /// Expands a topic predicate into the cartesian product of its positions' alternatives.
    fn flatten(topic: &Topic) -> (r: Vec<FlatTopic>)
        ensures
            flattened(*topic, r@),
    {
        let mut out: Vec<FlatTopic> = Vec::new();
        match topic {
            VariadicValue::Multiple(multi) => {
                let mut alternatives: Vec<Vec<Option<H256>>> = Vec::new();
                let mut i: usize = 0;
                while i < multi.len()
                    invariant
                        i <= multi.len(),
                        views(alternatives@) == multi@.subrange(0, i as int).map_values(
                            |p: Option<FlatTopic>| position_alternatives(p),
                        ),
                    decreases multi.len() - i,
                {
                    let alts: Vec<Option<H256>> = match &multi[i] {
                        Some(VariadicValue::Single(s)) => {
                            let mut v: Vec<Option<H256>> = Vec::new();
                            v.push(*s);
                            v
                        },
                        Some(VariadicValue::Multiple(s)) => copy_alternatives(s),
                        Some(VariadicValue::Null) => {
                            let mut v: Vec<Option<H256>> = Vec::new();
                            v.push(None);
                            v
                        },
                        None => {
                            let mut v: Vec<Option<H256>> = Vec::new();
                            v.push(None);
                            v
                        },
                    };
                    proof {
                        assert(alts@ =~= position_alternatives(multi@[i as int]));
                    }
                    let ghost old_alts = alternatives@;
                    let ghost av = alts@;
                    alternatives.push(alts);
                    proof {
                        assert(views(alternatives@) =~= views(old_alts).push(av));
                        assert(multi@.subrange(0, i + 1).map_values(
                            |p: Option<FlatTopic>| position_alternatives(p),
                        ) =~= multi@.subrange(0, i as int).map_values(
                            |p: Option<FlatTopic>| position_alternatives(p),
                        ).push(av));
                    }
                    i = i + 1;
                    assert(views(alternatives@) =~= multi@.subrange(0, i as int).map_values(
                        |p: Option<FlatTopic>| position_alternatives(p),
                    ));
                }
                assert(multi@.subrange(0, multi@.len() as int) =~= multi@);
                let mut combos = cartesian_product(&alternatives);
                let ghost c = views(combos@);
                let mut k: usize = 0;
                while k < combos.len()
                    invariant
                        k <= combos.len(),
                        out@.len() == k,
                        views(combos@) == c,
                        forall|j: int| 0 <= j < k ==> is_combination(#[trigger] out@[j], c[j]),
                    decreases combos.len() - k,
                {
                    let combo = copy_alternatives(&combos[k]);
                    out.push(VariadicValue::Multiple(combo));
                    k = k + 1;
                }
            },
            VariadicValue::Single(single) => {
                if let Some(single) = single {
                    out.push(copy_flat(single));
                }
            },
            VariadicValue::Null => {
                out.push(VariadicValue::Null);
            },
        }
        out
    }

    /// The combination's topics, each wildcard taken from the log; `None` when that is empty.
    pub fn replace(&self, log: &Log, topic: FlatTopic) -> (r: Option<Vec<H256>>)
        requires
            topic is Multiple ==> forall|k: int|
                0 <= k < combination_of(topic).len() && (#[trigger] combination_of(topic)[k]) is None
                    ==> k < log.topics@.len(),
        ensures
            match topic {
                VariadicValue::Single(Some(v)) => r is Some && r->0@ == seq![v],
                VariadicValue::Multiple(c) => if c@.len() == 0 {
                    r is None
                } else {
                    r is Some && r->0@ == replaced_topics(c@, log.topics@)
                },
                _ => r is None,
            },
    {
        let ghost c = combination_of(topic);
        let mut out: Vec<H256> = Vec::new();
        match topic {
            VariadicValue::Single(value) => {
                if let Some(value) = value {
                    out.push(value);
                }
            },
            VariadicValue::Multiple(value) => {
                assert forall|j: int|
                    0 <= j < value@.len() && (#[trigger] value@[j]) is None implies j
                        < log.topics@.len() by {
                    assert(c[j] == value@[j]);
                }
                let mut k: usize = 0;
                while k < value.len()
                    invariant
                        k <= value.len(),
                        forall|j: int|
                            0 <= j < value@.len() && (#[trigger] value@[j]) is None ==> j
                                < log.topics@.len(),
                        out@ == replaced_topics(value@, log.topics@).subrange(0, k as int),
                    decreases value.len() - k,
                {
                    match value[k] {
                        Some(v) => out.push(v),
                        None => out.push(log.topics[k]),
                    }
                    k = k + 1;
                    assert(out@ =~= replaced_topics(value@, log.topics@).subrange(0, k as int));
                }
                assert(out@ =~= replaced_topics(value@, log.topics@));
            },
            _ => {},
        }
        if out.len() == 0 {
            return None;
        }
        Some(out)
    }

    /// Whether a block number passes the filter's numeric bounds.
    pub fn filter_block_range(&self, block_number: u64) -> (r: bool)
        requires
            self.filter is Some,
        ensures
            r == block_in_range(self.filter->0, block_number),
    {
        let mut out = true;
        let filter = match &self.filter {
            Some(f) => f,
            None => {
                return true;
            },
        };
        if let Some(from) = &filter.from_block {
            match from {
                BlockNumber::Num(_) => {
                    let from_num = match from.to_min_block_num() {
                        Some(x) => x,
                        None => 0,
                    };
                    if from_num > block_number {
                        out = false;
                    }
                },
                _ => {},
            }
        }
        if let Some(to) = &filter.to_block {
            match to {
                BlockNumber::Num(_) => {
                    let to_num = match to.to_min_block_num() {
                        Some(x) => x,
                        None => 0,
                    };
                    if to_num < block_number {
                        out = false;
                    }
                },
                BlockNumber::Earliest => {
                    out = false;
                },
                _ => {},
            }
        }
        out
    }

    /// Whether a block hash passes the filter's pinned hash.
    pub fn filter_block_hash(&self, block_hash: H256) -> (r: bool)
        requires
            self.filter is Some,
        ensures
            r == block_hash_matches(self.filter->0, block_hash),
    {
        if let Some(f) = &self.filter {
            if let Some(h) = &f.block_hash {
                if !h.eq(&block_hash) {
                    return false;
                }
            }
        }
        true
    }

    /// Whether a log's address passes the filter's address predicate.
    #[verifier::loop_isolation(false)]
    pub fn filter_address(&self, log: &Log) -> (r: bool)
        requires
            self.filter is Some,
        ensures
            r == address_matches(self.filter->0, log.address),
    {
        if let Some(f) = &self.filter {
            if let Some(input_address) = &f.address {
                match input_address {
                    VariadicValue::Single(x) => {
                        if !log.address.eq(x) {
                            return false;
                        }
                    },
                    VariadicValue::Multiple(x) => {
                        let mut i: usize = 0;
                        while i < x.len()
                            invariant
                                i <= x.len(),
                                forall|j: int| 0 <= j < i ==> x@[j] != log.address,
                            decreases x.len() - i,
                        {
                            if x[i].eq(&log.address) {
                                assert(x@[i as int] == log.address);
                                assert(x@.contains(log.address));
                                return true;
                            }
                            i = i + 1;
                        }
                        return false;
                    },
                    _ => {
                        return true;
                    },
                }
            }
        }
        true
    }

    /// Whether a log's topics match one combination: trailing wildcards are dropped, then
    /// the log's topics must start with the combination, wildcards taken from the log.
    fn combination_matches_log(&self, log: &Log, topic: &FlatTopic) -> (r: bool)
        ensures
            r == combination_matches(combination_of(*topic), log.topics@),
    {
        match topic {
            VariadicValue::Single(single) => {
                if let Some(single) = single {
                    let r = log.topics.len() > 0 && log.topics[0].eq(single);
                    proof {
                        let c = combination_of(*topic);
                        if !r {
                            assert(c[0] is Some);
                        }
                    }
                    r
                } else {
                    true
                }
            },
            VariadicValue::Multiple(multi) => {
                let mut new_multi = copy_alternatives(multi);
                while new_multi.len() > 0 && new_multi[new_multi.len() - 1].is_none()
                    invariant
                        new_multi@.len() <= multi@.len(),
                        new_multi@ == multi@.subrange(0, new_multi@.len() as int),
                        forall|j: int| new_multi@.len() <= j < multi@.len() ==> multi@[j] is None,
                    decreases new_multi.len(),
                {
                    new_multi.pop();
                }
                if new_multi.len() > log.topics.len() {
                    proof {
                        let n = new_multi@.len() - 1;
                        assert(multi@[n] is Some);
                    }
                    return false;
                }
                let ghost trimmed = new_multi@;
                if new_multi.len() == 0 {
                    return true;
                }
                let replaced = self.replace(log, VariadicValue::Multiple(new_multi));
                match replaced {
                    Some(rep) => {
                        let r = starts_with(&log.topics, &rep);
                        proof {
                            if r {
                                assert forall|i: int|
                                    0 <= i < multi@.len() && #[trigger] multi@[i] is Some implies i
                                    < log.topics@.len() && log.topics@[i] == multi@[i]->0 by {
                                    assert(i < trimmed.len());
                                    assert(rep@[i] == log.topics@[i]);
                                }
                            } else {
                                let i = choose|i: int|
                                    0 <= i < rep@.len() && rep@[i] != log.topics@[i];
                                assert(multi@[i] == trimmed[i]);
                            }
                        }
                        r
                    },
                    None => true,
                }
            },
            VariadicValue::Null => true,
        }
    }

    /// Whether a log's topics pass the topic predicate: with no combination every log passes,
    /// otherwise one matching combination suffices.
    pub fn filter_topics(&self, log: &Log) -> (r: bool)
        ensures
            r == topics_match(self.flat_topics_view(), log.topics@),
    {
        if self.flat_topics.len() == 0 {
            return true;
        }
        let mut i: usize = 0;
        while i < self.flat_topics.len()
            invariant
                i <= self.flat_topics@.len(),
                forall|j: int|
                    0 <= j < i ==> !combination_matches(
                        combination_of(#[trigger] self.flat_topics@[j]),
                        log.topics@,
                    ),
            decreases self.flat_topics.len() - i,
        {
            if self.combination_matches_log(log, &self.flat_topics[i]) {
                return true;
            }
            i = i + 1;
        }
        false
    }

    /// Whether a log of the given block passes every test of the filter.
    pub fn filter_log(&self, block_number: u64, block_hash: H256, log: &Log) -> (r: bool)
        requires
            self.filter is Some,
        ensures
            r == (block_in_range(self.filter->0, block_number) && block_hash_matches(
                self.filter->0,
                block_hash,
            ) && address_matches(self.filter->0, log.address) && topics_match(
                self.flat_topics_view(),
                log.topics@,
            )),
    {
        self.filter_block_range(block_number) && self.filter_block_hash(block_hash)
            && self.filter_address(log) && self.filter_topics(log)
    }
}

/// Whether `s` starts with `prefix`.
fn starts_with(s: &Vec<H256>, prefix: &Vec<H256>) -> (r: bool)
    ensures
        r == (prefix@.len() <= s@.len() && forall|i: int|
            0 <= i < prefix@.len() ==> #[trigger] prefix@[i] == s@[i]),
{
    if prefix.len() > s.len() {
        return false;
    }
    let mut i: usize = 0;
    while i < prefix.len()
        invariant
            i <= prefix@.len() <= s@.len(),
            forall|j: int| 0 <= j < i ==> #[trigger] prefix@[j] == s@[j],
        decreases prefix.len() - i,
    {
        if !prefix[i].eq(&s[i]) {
            return false;
        }
        i = i + 1;
    }
    true
}

} // verus!
