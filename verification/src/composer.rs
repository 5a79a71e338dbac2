//! The password composer: character classes, the combined alphabet, and
//! random string construction under the "guaranteed coverage" policy.
//!
//! Policy: one character is drawn from each enabled class first, in the
//! fixed order uppercase, lowercase, numbers, symbols, so that every enabled
//! class is represented; when the requested length is smaller than the
//! number of enabled classes, that list of coverage characters is truncated
//! after the first `length` of them.  The remaining positions are filled by
//! uniform draws from the combined alphabet, and the whole sequence is
//! shuffled so the coverage characters are not predictably placed.

use vstd::prelude::*;
use vstd::string::StrSliceExecFns;
use vstd::string::StringExecFns;
use rand::Rng;
use rand::seq::SliceRandom;
use crate::contains_char_from;

verus! {

/// The four class alphabets. Each is an ordered sequence of characters,
/// immutable once the composer is used; callers may override them before
/// generating, as long as each stays non-empty.
pub struct Characters {
    pub uppercase: String,
    pub lowercase: String,
    pub numbers: String,
    pub symbols: String,
}

impl Characters {
    /// Every class alphabet holds at least one character.
    pub open spec fn wf(&self) -> bool {
        &&& self.uppercase@.len() >= 1
        &&& self.lowercase@.len() >= 1
        &&& self.numbers@.len() >= 1
        &&& self.symbols@.len() >= 1
    }
}

/// The alphabets the composer starts from: `A-Z`, `a-z`, `0-9`, `!@#$%^&*()`.
pub open spec fn default_alphabets(c: Characters) -> bool {
    &&& c.uppercase@ == "ABCDEFGHIJKLMNOPQRSTUVWXYZ"@
    &&& c.lowercase@ == "abcdefghijklmnopqrstuvwxyz"@
    &&& c.numbers@ == "0123456789"@
    &&& c.symbols@ == "!@#$%^&*()"@
}

/// A generation request is invalid when the length is zero or no class is
/// enabled.
#[derive(Clone, Copy, Debug, PartialEq, Eq)]
pub enum ComposeError {
    InvalidRequest,
}

/// A source of random passwords over some fixed alphabet.
pub trait PasswordGenerator {
    /// The generator is in a state from which passwords can be produced.
    spec fn wf(&self) -> bool;

    /// The characters that generated passwords draw from.
    spec fn alphabet(&self) -> Seq<char>;

    /// Produce one password of exactly `length` characters, each taken from
    /// the generator's alphabet.
    fn generate_password(&self, length: usize) -> (r: String)
        requires
            self.wf(),
            1 <= length,
        ensures
            r@.len() == length,
            forall|i: int| 0 <= i < r@.len() ==> self.alphabet().contains(#[trigger] r@[i]),
    ;
}

/// The one concrete strategy: a composer that guarantees at least one
/// character from every enabled class.
pub struct ComplexPasswordGenerator {
    pub include_uppercase: bool,
    pub include_lowercase: bool,
    pub include_numbers: bool,
    pub include_symbols: bool,
    pub characters: Characters,
}

impl ComplexPasswordGenerator {
    /// At least one character class is enabled.
    pub open spec fn any_enabled(&self) -> bool {
        self.include_uppercase || self.include_lowercase || self.include_numbers
            || self.include_symbols
    }

    /// The uppercase alphabet where enabled, else nothing.
    pub open spec fn upper_part(&self) -> Seq<char> {
        if self.include_uppercase {
            self.characters.uppercase@
        } else {
            Seq::empty()
        }
    }

    /// The lowercase alphabet where enabled, else nothing.
    pub open spec fn lower_part(&self) -> Seq<char> {
        if self.include_lowercase {
            self.characters.lowercase@
        } else {
            Seq::empty()
        }
    }

    /// The numbers alphabet where enabled, else nothing.
    pub open spec fn numbers_part(&self) -> Seq<char> {
        if self.include_numbers {
            self.characters.numbers@
        } else {
            Seq::empty()
        }
    }

    /// The symbols alphabet where enabled, else nothing.
    pub open spec fn symbols_part(&self) -> Seq<char> {
        if self.include_symbols {
            self.characters.symbols@
        } else {
            Seq::empty()
        }
    }

    /// The combined alphabet: the concatenation of every enabled class's
    /// alphabet, in the fixed class order.
    pub open spec fn combined(&self) -> Seq<char> {
        self.upper_part() + self.lower_part() + self.numbers_part() + self.symbols_part()
    }

    /// 1 when uppercase is enabled.
    pub open spec fn n_upper(&self) -> int {
        if self.include_uppercase {
            1
        } else {
            0
        }
    }

    /// 1 when lowercase is enabled.
    pub open spec fn n_lower(&self) -> int {
        if self.include_lowercase {
            1
        } else {
            0
        }
    }

    /// 1 when numbers are enabled.
    pub open spec fn n_numbers(&self) -> int {
        if self.include_numbers {
            1
        } else {
            0
        }
    }

    /// 1 when symbols are enabled.
    pub open spec fn n_symbols(&self) -> int {
        if self.include_symbols {
            1
        } else {
            0
        }
    }

    /// How many classes are enabled.
    pub open spec fn enabled_count(&self) -> int {
        self.n_upper() + self.n_lower() + self.n_numbers() + self.n_symbols()
    }

    /// Every enabled class contributes at least one character to `s`.
    pub open spec fn covers_enabled(&self, s: Seq<char>) -> bool {
        &&& self.include_uppercase ==> contains_char_from(s, self.characters.uppercase@)
        &&& self.include_lowercase ==> contains_char_from(s, self.characters.lowercase@)
        &&& self.include_numbers ==> contains_char_from(s, self.characters.numbers@)
        &&& self.include_symbols ==> contains_char_from(s, self.characters.symbols@)
    }

    /// Build a composer over the default alphabets with the given classes
    /// enabled.
    pub fn new(
        include_uppercase: bool,
        include_lowercase: bool,
        include_numbers: bool,
        include_symbols: bool,
    ) -> (r: Self)
        ensures
            r.include_uppercase == include_uppercase,
            r.include_lowercase == include_lowercase,
            r.include_numbers == include_numbers,
            r.include_symbols == include_symbols,
            default_alphabets(r.characters),
            r.characters.wf(),
    {
        let r = Self {
            include_uppercase,
            include_lowercase,
            include_numbers,
            include_symbols,
            characters: Characters {
                uppercase: String::from_str("ABCDEFGHIJKLMNOPQRSTUVWXYZ"),
                lowercase: String::from_str("abcdefghijklmnopqrstuvwxyz"),
                numbers: String::from_str("0123456789"),
                symbols: String::from_str("!@#$%^&*()"),
            },
        };
        proof {
            reveal_strlit("ABCDEFGHIJKLMNOPQRSTUVWXYZ");
            reveal_strlit("abcdefghijklmnopqrstuvwxyz");
            reveal_strlit("0123456789");
            reveal_strlit("!@#$%^&*()");
        }
        r
    }

    /// Compose one password of exactly `length` characters under the
    /// guaranteed-coverage policy, or reject an invalid request.
    ///
    /// Success comes exactly when the length is positive and some class is
    /// enabled. On success the password has exactly `length` characters,
    /// each from the combined alphabet, and a class's coverage character is
    /// present whenever `length` reaches that class's position in the fixed
    /// class order — so every enabled class is represented once `length`
    /// reaches the number of enabled classes.
    pub fn compose(&self, length: usize) -> (r: Result<String, ComposeError>)
        requires
            self.characters.wf(),
        ensures
            r is Ok <==> (1 <= length && self.any_enabled()),
            r is Err ==> r == Err::<String, ComposeError>(ComposeError::InvalidRequest),
            r is Ok ==> r->Ok_0@.len() == length,
            r is Ok ==> (forall|i: int|
                0 <= i < r->Ok_0@.len() ==> self.combined().contains(#[trigger] r->Ok_0@[i])),
            r is Ok && self.include_uppercase && self.n_upper() <= length
                ==> contains_char_from(r->Ok_0@, self.characters.uppercase@),
            r is Ok && self.include_lowercase && self.n_upper() + self.n_lower() <= length
                ==> contains_char_from(r->Ok_0@, self.characters.lowercase@),
            r is Ok && self.include_numbers && self.n_upper() + self.n_lower() + self.n_numbers()
                <= length ==> contains_char_from(r->Ok_0@, self.characters.numbers@),
            r is Ok && self.include_symbols && self.enabled_count() <= length
                ==> contains_char_from(r->Ok_0@, self.characters.symbols@),
            r is Ok && self.enabled_count() <= length ==> self.covers_enabled(r->Ok_0@),
    {
        if length == 0 || !(self.include_uppercase || self.include_lowercase
            || self.include_numbers || self.include_symbols) {
            return Err(ComposeError::InvalidRequest);
        }
        // The combined alphabet, as a character pool to draw fills from.
        let mut pool: Vec<char> = Vec::new();
        if self.include_uppercase {
            push_all_chars(&mut pool, &self.characters.uppercase);
        }
        proof {
            assert(pool@ =~= self.upper_part());
        }
        if self.include_lowercase {
            push_all_chars(&mut pool, &self.characters.lowercase);
        }
        proof {
            assert(pool@ =~= self.upper_part() + self.lower_part());
        }
        if self.include_numbers {
            push_all_chars(&mut pool, &self.characters.numbers);
        }
        proof {
            assert(pool@ =~= self.upper_part() + self.lower_part() + self.numbers_part());
        }
        if self.include_symbols {
            push_all_chars(&mut pool, &self.characters.symbols);
        }
        proof {
            assert(pool@ =~= self.combined());
            assert(self.combined().len() >= 1);
        }
        // One coverage character per enabled class, truncated at `length`.
        let mut picked: Vec<char> = Vec::new();
        if self.include_uppercase && picked.len() < length {
            let c = draw_from(&self.characters.uppercase);
            picked.push(c);
            proof {
                lemma_part_in_combined(self, c);
                assert(self.characters.uppercase@.contains(picked@[0]));
            }
        }
        proof {
            assert(picked@.len() == self.n_upper());
            assert(self.include_uppercase && self.n_upper() <= length
                ==> contains_char_from(picked@, self.characters.uppercase@));
        }
        if self.include_lowercase && picked.len() < length {
            let ghost pre = picked@;
            let c = draw_from(&self.characters.lowercase);
            picked.push(c);
            proof {
                lemma_part_in_combined(self, c);
                if contains_char_from(pre, self.characters.uppercase@) {
                    lemma_contains_from_push(pre, c, self.characters.uppercase@);
                }
                assert(self.characters.lowercase@.contains(picked@[pre.len() as int]));
            }
        }
        proof {
            assert(picked@.len() == if self.n_upper() + self.n_lower() <= length {
                self.n_upper() + self.n_lower()
            } else {
                length as int
            });
            assert(self.include_lowercase && self.n_upper() + self.n_lower() <= length
                ==> contains_char_from(picked@, self.characters.lowercase@));
        }
        if self.include_numbers && picked.len() < length {
            let ghost pre = picked@;
            let c = draw_from(&self.characters.numbers);
            picked.push(c);
            proof {
                lemma_part_in_combined(self, c);
                if contains_char_from(pre, self.characters.uppercase@) {
                    lemma_contains_from_push(pre, c, self.characters.uppercase@);
                }
                if contains_char_from(pre, self.characters.lowercase@) {
                    lemma_contains_from_push(pre, c, self.characters.lowercase@);
                }
                assert(self.characters.numbers@.contains(picked@[pre.len() as int]));
            }
        }
        proof {
            assert(picked@.len() == if self.n_upper() + self.n_lower() + self.n_numbers()
                <= length {
                self.n_upper() + self.n_lower() + self.n_numbers()
            } else {
                length as int
            });
            assert(self.include_numbers && self.n_upper() + self.n_lower() + self.n_numbers()
                <= length ==> contains_char_from(picked@, self.characters.numbers@));
        }
        if self.include_symbols && picked.len() < length {
            let ghost pre = picked@;
            let c = draw_from(&self.characters.symbols);
            picked.push(c);
            proof {
                lemma_part_in_combined(self, c);
                if contains_char_from(pre, self.characters.uppercase@) {
                    lemma_contains_from_push(pre, c, self.characters.uppercase@);
                }
                if contains_char_from(pre, self.characters.lowercase@) {
                    lemma_contains_from_push(pre, c, self.characters.lowercase@);
                }
                if contains_char_from(pre, self.characters.numbers@) {
                    lemma_contains_from_push(pre, c, self.characters.numbers@);
                }
                assert(self.characters.symbols@.contains(picked@[pre.len() as int]));
            }
        }
        proof {
            assert(picked@.len() <= length);
            assert(self.include_symbols && self.enabled_count() <= length
                ==> contains_char_from(picked@, self.characters.symbols@));
        }
        // Fill the remaining positions uniformly from the combined alphabet.
        while picked.len() < length
            invariant
                1 <= length,
                pool@ == self.combined(),
                1 <= pool@.len(),
                picked@.len() <= length,
                forall|k: int|
                    0 <= k < picked@.len() ==> self.combined().contains(#[trigger] picked@[k]),
                self.include_uppercase && self.n_upper() <= length
                    ==> contains_char_from(picked@, self.characters.uppercase@),
                self.include_lowercase && self.n_upper() + self.n_lower() <= length
                    ==> contains_char_from(picked@, self.characters.lowercase@),
                self.include_numbers && self.n_upper() + self.n_lower() + self.n_numbers()
                    <= length ==> contains_char_from(picked@, self.characters.numbers@),
                self.include_symbols && self.enabled_count() <= length
                    ==> contains_char_from(picked@, self.characters.symbols@),
            decreases length - picked.len(),
        {
            let ghost pre = picked@;
            let i = random_index(pool.len());
            let c = pool[i];
            picked.push(c);
            proof {
                assert(self.combined().contains(c)) by {
                    assert(pool@[i as int] == c);
                }
                if contains_char_from(pre, self.characters.uppercase@) {
                    lemma_contains_from_push(pre, c, self.characters.uppercase@);
                }
                if contains_char_from(pre, self.characters.lowercase@) {
                    lemma_contains_from_push(pre, c, self.characters.lowercase@);
                }
                if contains_char_from(pre, self.characters.numbers@) {
                    lemma_contains_from_push(pre, c, self.characters.numbers@);
                }
                if contains_char_from(pre, self.characters.symbols@) {
                    lemma_contains_from_push(pre, c, self.characters.symbols@);
                }
            }
        }
        // Shuffle so the coverage characters are not predictably placed.
        let ghost before_shuffle = picked@;
        shuffle_chars(&mut picked);
        proof {
            lemma_same_multiset_same_members(before_shuffle, picked@);
            assert forall|k: int|
                0 <= k < picked@.len() implies self.combined().contains(
                #[trigger] picked@[k]) by {
                assert(picked@.contains(picked@[k]));
                assert(before_shuffle.contains(picked@[k]));
                let j = choose|j: int|
                    0 <= j < before_shuffle.len() && before_shuffle[j] == picked@[k];
                assert(self.combined().contains(before_shuffle[j]));
            }
            if contains_char_from(before_shuffle, self.characters.uppercase@) {
                lemma_contains_from_same_members(
                    before_shuffle,
                    picked@,
                    self.characters.uppercase@,
                );
            }
            if contains_char_from(before_shuffle, self.characters.lowercase@) {
                lemma_contains_from_same_members(
                    before_shuffle,
                    picked@,
                    self.characters.lowercase@,
                );
            }
            if contains_char_from(before_shuffle, self.characters.numbers@) {
                lemma_contains_from_same_members(
                    before_shuffle,
                    picked@,
                    self.characters.numbers@,
                );
            }
            if contains_char_from(before_shuffle, self.characters.symbols@) {
                lemma_contains_from_same_members(
                    before_shuffle,
                    picked@,
                    self.characters.symbols@,
                );
            }
        }
        let s = chars_to_string(&picked);
        Ok(s)
    }
}

impl PasswordGenerator for ComplexPasswordGenerator {
    /// Passwords can be produced once every alphabet is non-empty and some
    /// class is enabled.
    open spec fn wf(&self) -> bool {
        self.characters.wf() && self.any_enabled()
    }

    /// Generated passwords draw from the combined alphabet.
    open spec fn alphabet(&self) -> Seq<char> {
        self.combined()
    }

    fn generate_password(&self, length: usize) -> (r: String) {
        match self.compose(length) {
            Ok(p) => p,
            Err(_) => {
                proof {
                    assert(false);
                }
                String::new()
            },
        }
    }
}

/// Relies on `rand::rng` and `rand::Rng::random_range`: a draw from `0..n`,
/// uniform over the range, which panics only when the range is empty.
#[verifier::external_body]
fn random_index(n: usize) -> (r: usize)
    requires
        1 <= n,
    ensures
        r < n,
{
    rand::rng().random_range(0..n)
}

/// Relies on `rand::rng` and `rand::seq::SliceRandom::shuffle`: an in-place
/// permutation of the slice, so the characters are rearranged but none is
/// added or lost.
#[verifier::external_body]
fn shuffle_chars(v: &mut Vec<char>)
    ensures
        final(v)@.to_multiset() == old(v)@.to_multiset(),
        final(v)@.len() == old(v)@.len(),
{
    v.shuffle(&mut rand::rng())
}

/// Relies on `String::push` (std): appends the character to the end of the
/// string.
#[verifier::external_body]
pub(crate) fn push_char(s: &mut String, c: char)
    ensures
        final(s)@ == old(s)@.push(c),
{
    s.push(c)
}

/// Append every character of `s` to `out`, in order.
fn push_all_chars(out: &mut Vec<char>, s: &String)
    ensures
        final(out)@ == old(out)@ + s@,
{
    let n = s.as_str().unicode_len();
    let mut j: usize = 0;
    while j < n
        invariant
            n == s@.len(),
            j <= n,
            out@ == old(out)@ + s@.subrange(0, j as int),
        decreases n - j,
    {
        let c = s.as_str().get_char(j);
        out.push(c);
        j += 1;
        proof {
            assert(out@ =~= old(out)@ + s@.subrange(0, j as int));
        }
    }
    proof {
        assert(s@.subrange(0, n as int) =~= s@);
    }
}

/// Draw one character uniformly from a non-empty alphabet.
fn draw_from(alpha: &String) -> (c: char)
    requires
        alpha@.len() >= 1,
    ensures
        alpha@.contains(c),
{
    let n = alpha.as_str().unicode_len();
    let i = random_index(n);
    let c = alpha.as_str().get_char(i);
    proof {
        assert(alpha@[i as int] == c);
    }
    c
}

/// Turn a character vector into a `String` holding the same characters in
/// the same order.
fn chars_to_string(v: &Vec<char>) -> (s: String)
    ensures
        s@ == v@,
{
    let mut s = String::new();
    let mut i: usize = 0;
    while i < v.len()
        invariant
            i <= v@.len(),
            s@ == v@.subrange(0, i as int),
        decreases v@.len() - i,
    {
        push_char(&mut s, v[i]);
        i += 1;
        proof {
            assert(s@ =~= v@.subrange(0, i as int));
        }
    }
    proof {
        assert(s@ =~= v@);
    }
    s
}

/// A concatenation contains whatever either half contains.
proof fn lemma_add_contains(a: Seq<char>, b: Seq<char>, c: char)
    requires
        a.contains(c) || b.contains(c),
    ensures
        (a + b).contains(c),
{
    if a.contains(c) {
        let i = choose|i: int| 0 <= i < a.len() && a[i] == c;
        assert((a + b)[i] == c);
    } else {
        let i = choose|i: int| 0 <= i < b.len() && b[i] == c;
        assert((a + b)[a.len() + i] == c);
    }
}

/// A character of any enabled class's alphabet is in the combined alphabet.
proof fn lemma_part_in_combined(g: &ComplexPasswordGenerator, c: char)
    requires
        g.upper_part().contains(c) || g.lower_part().contains(c) || g.numbers_part().contains(c)
            || g.symbols_part().contains(c),
    ensures
        g.combined().contains(c),
{
    if g.upper_part().contains(c) || g.lower_part().contains(c) {
        lemma_add_contains(g.upper_part(), g.lower_part(), c);
    }
    if (g.upper_part() + g.lower_part()).contains(c) || g.numbers_part().contains(c) {
        lemma_add_contains(g.upper_part() + g.lower_part(), g.numbers_part(), c);
    }
    lemma_add_contains(
        g.upper_part() + g.lower_part() + g.numbers_part(),
        g.symbols_part(),
        c,
    );
}

/// Appending a character keeps every alphabet already represented.
proof fn lemma_contains_from_push(s: Seq<char>, c: char, alpha: Seq<char>)
    requires
        contains_char_from(s, alpha),
    ensures
        contains_char_from(s.push(c), alpha),
{
    let i = choose|i: int| 0 <= i < s.len() && alpha.contains(s[i]);
    assert(s.push(c)[i] == s[i]);
}

/// Two sequences with the same multiset have the same length and members.
proof fn lemma_same_multiset_same_members(a: Seq<char>, b: Seq<char>)
    requires
        a.to_multiset() == b.to_multiset(),
    ensures
        a.len() == b.len(),
        forall|c: char| a.contains(c) <==> b.contains(c),
{
    broadcast use vstd::seq_lib::group_to_multiset_ensures;

    assert(a.to_multiset().len() == a.len());
    assert(b.to_multiset().len() == b.len());
    assert forall|c: char| a.contains(c) <==> b.contains(c) by {
        assert(a.contains(c) <==> a.to_multiset().count(c) > 0);
        assert(b.contains(c) <==> b.to_multiset().count(c) > 0);
    }
}

/// An alphabet represented in `a` is represented in any sequence with the
/// same members.
proof fn lemma_contains_from_same_members(a: Seq<char>, b: Seq<char>, alpha: Seq<char>)
    requires
        contains_char_from(a, alpha),
        forall|c: char| a.contains(c) ==> b.contains(c),
    ensures
        contains_char_from(b, alpha),
{
    let i = choose|i: int| 0 <= i < a.len() && alpha.contains(a[i]);
    assert(a.contains(a[i]));
    assert(b.contains(a[i]));
    let j = choose|j: int| 0 <= j < b.len() && b[j] == a[i];
    assert(alpha.contains(b[j]));
}

} // verus!
