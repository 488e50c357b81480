//! Random password generation.
//!
//! A password is drawn from the union of the enabled character sets; one
//! character of every enabled, non-empty set is always included, the rest is
//! filled from the whole set, and the result is shuffled.

use vstd::prelude::*;
use vstd::string::StringExecFns;

use rand::seq::IndexedRandom;
use rand::seq::SliceRandom;

use crate::error::Error;

verus! {

/// The lowercase letters.
pub open spec fn lower_chars() -> Seq<char> {
    "abcdefghijklmnopqrstuvwxyz"@
}

/// The uppercase letters.
pub open spec fn upper_chars() -> Seq<char> {
    "ABCDEFGHIJKLMNOPQRSTUVWXYZ"@
}

/// The digits.
pub open spec fn digit_chars() -> Seq<char> {
    "0123456789"@
}

/// The default symbol set.
pub open spec fn default_symbol_chars() -> Seq<char> {
    "!@#$%^&*()-_=+[]{}|;:,.<>?"@
}

/// Password generation settings.
#[derive(Debug, Clone)]
pub struct GeneratorConfig {
    /// Requested password length, in characters.
    pub length: u32,
    /// Include uppercase letters.
    pub include_uppercase: bool,
    /// Include lowercase letters.
    pub include_lowercase: bool,
    /// Include digits.
    pub include_numbers: bool,
    /// Include symbols.
    pub include_symbols: bool,
    /// The symbol set to draw from.
    pub symbol_set: String,
}

impl Default for GeneratorConfig {
    /// Sixteen characters, all four character sets, the default symbols.
    fn default() -> (r: Self)
        ensures
            r.length == 16,
            r.include_uppercase && r.include_lowercase && r.include_numbers && r.include_symbols,
            r.symbol_set@ == default_symbol_chars(),
    {
        GeneratorConfig {
            length: 16,
            include_uppercase: true,
            include_lowercase: true,
            include_numbers: true,
            include_symbols: true,
            symbol_set: String::from_str("!@#$%^&*()-_=+[]{}|;:,.<>?"),
        }
    }
}

/// The union of the enabled character sets, in a fixed order.
pub open spec fn charset_of(c: GeneratorConfig) -> Seq<char> {
    (if c.include_lowercase {
        lower_chars()
    } else {
        Seq::<char>::empty()
    }) + (if c.include_uppercase {
        upper_chars()
    } else {
        Seq::<char>::empty()
    }) + (if c.include_numbers {
        digit_chars()
    } else {
        Seq::<char>::empty()
    }) + (if c.include_symbols {
        c.symbol_set@
    } else {
        Seq::<char>::empty()
    })
}

/// How many enabled sets are guaranteed a character in the result: every
/// enabled set, counting the symbol set only when it is non-empty.
pub open spec fn enabled_count(c: GeneratorConfig) -> int {
    (if c.include_lowercase {
        1int
    } else {
        0int
    }) + (if c.include_uppercase {
        1int
    } else {
        0int
    }) + (if c.include_numbers {
        1int
    } else {
        0int
    }) + (if c.include_symbols && c.symbol_set@.len() > 0 {
        1int
    } else {
        0int
    })
}

/// The length a generated password comes out at: the requested length, but
/// never less than one character per guaranteed set.
pub open spec fn generated_len(c: GeneratorConfig) -> int {
    if c.length as int >= enabled_count(c) {
        c.length as int
    } else {
        enabled_count(c)
    }
}

/// Relies on `rand::seq::IndexedRandom::choose` with the thread-local
/// generator: yields some element of the slice, and `None` exactly when the
/// slice is empty. Which element comes back is random; nothing more is
/// assumed.
#[verifier::external_body]
fn choose_char(chars: &Vec<char>) -> (r: Option<char>)
    ensures
        r is Some <==> chars@.len() > 0,
        r matches Some(c) ==> chars@.contains(c),
{
    chars.as_slice().choose(&mut rand::rng()).copied()
}

/// Relies on `rand::seq::SliceRandom::shuffle` with the thread-local
/// generator: permutes the elements in place. The order is random; the
/// collection of elements is unchanged.
#[verifier::external_body]
fn shuffle_chars(chars: &mut Vec<char>)
    ensures
        final(chars)@.len() == old(chars)@.len(),
        final(chars)@.to_multiset() == old(chars)@.to_multiset(),
{
    chars.shuffle(&mut rand::rng());
}

/// Relies on `String::from_iter` over `char`: builds the string of exactly
/// these characters.
#[verifier::external_body]
fn chars_to_string(chars: &Vec<char>) -> (r: String)
    ensures
        r@ == chars@,
{
    chars.iter().collect()
}

/// Appends every character of `s` to `dst`.
fn push_str_chars(dst: &mut Vec<char>, s: &str)
    ensures
        final(dst)@ == old(dst)@ + s@,
{
    let n = s.unicode_len();
    let mut i: usize = 0;
    while i < n
        invariant
            i <= n,
            n == s@.len(),
            dst@ == old(dst)@ + s@.take(i as int),
        decreases n - i,
    {
        dst.push(s.get_char(i));
        proof {
            assert(old(dst)@ + s@.take(i as int) + seq![s@[i as int]] =~= old(dst)@ + s@.take(
                i + 1,
            ));
        }
        i += 1;
    }
    proof {
        assert(s@.take(n as int) =~= s@);
    }
}

/// An element of the left part of a concatenation is an element of the
/// whole.
proof fn lemma_concat_contains_left(a: Seq<char>, b: Seq<char>, x: char)
    requires
        a.contains(x),
    ensures
        (a + b).contains(x),
{
    let k = choose|k: int| 0 <= k < a.len() && a[k] == x;
    assert((a + b)[k] == x);
}

/// An element of the right part of a concatenation is an element of the
/// whole.
proof fn lemma_concat_contains_right(a: Seq<char>, b: Seq<char>, x: char)
    requires
        b.contains(x),
    ensures
        (a + b).contains(x),
{
    let k = choose|k: int| 0 <= k < b.len() && b[k] == x;
    assert((a + b)[a.len() + k] == x);
}

/// Some character of `s` belongs to `set`.
pub open spec fn has_char_from(s: Seq<char>, set: Seq<char>) -> bool {
    exists|k: int| 0 <= k < s.len() && set.contains(#[trigger] s[k])
}

/// Appending a character keeps every already-present class present.
proof fn lemma_push_keeps_char_from(s: Seq<char>, x: char, set: Seq<char>)
    requires
        has_char_from(s, set),
    ensures
        has_char_from(s.push(x), set),
{
    let k = choose|k: int| 0 <= k < s.len() && set.contains(#[trigger] s[k]);
    assert(s.push(x)[k] == s[k]);
}

/// A permutation keeps every present class of character present.
proof fn lemma_permutation_keeps_char_from(a: Seq<char>, b: Seq<char>, set: Seq<char>)
    requires
        a.to_multiset() == b.to_multiset(),
        has_char_from(a, set),
    ensures
        has_char_from(b, set),
{
    broadcast use vstd::seq_lib::group_to_multiset_ensures;

    let k = choose|k: int| 0 <= k < a.len() && set.contains(#[trigger] a[k]);
    assert(a.contains(a[k]));
    assert(a.to_multiset().count(a[k]) > 0);
    assert(b.to_multiset().count(a[k]) > 0);
    assert(b.contains(a[k]));
    let t = choose|t: int| 0 <= t < b.len() && b[t] == a[k];
    assert(set.contains(b[t]));
}

/// Password generator over one settings value.
pub struct PasswordGenerator {
    config: GeneratorConfig,
}

impl View for PasswordGenerator {
    type V = GeneratorConfig;

    closed spec fn view(&self) -> GeneratorConfig {
        self.config
    }
}

impl PasswordGenerator {
    /// A generator with the default settings.
    pub fn new() -> (r: Self)
        ensures
            r@.length == 16,
            r@.include_uppercase && r@.include_lowercase && r@.include_numbers
                && r@.include_symbols,
            r@.symbol_set@ == default_symbol_chars(),
    {
        PasswordGenerator { config: GeneratorConfig::default() }
    }

    /// A generator with the given settings.
    pub fn with_config(config: GeneratorConfig) -> (r: Self)
        ensures
            r@ == config,
    {
        PasswordGenerator { config }
    }

    /// Generates one password: `generated_len(config)` characters, every one
    /// drawn from the union of the enabled sets, in a random order. Fails
    /// exactly when the requested length is zero or no characters are
    /// enabled.
    pub fn generate(&self) -> (r: Result<String, Error>)
        ensures
            r is Err <==> (self@.length == 0 || charset_of(self@).len() == 0),
            r matches Err(e) ==> e is PasswordGeneration,
            r matches Ok(s) ==> s@.len() == generated_len(self@) && (forall|i: int|
                0 <= i < s@.len() ==> charset_of(self@).contains(#[trigger] s@[i])),
            r matches Ok(s) ==> ((self@.include_lowercase ==> has_char_from(s@, lower_chars()))
                && (self@.include_uppercase ==> has_char_from(s@, upper_chars())) && (
            self@.include_numbers ==> has_char_from(s@, digit_chars())) && ((
            self@.include_symbols && self@.symbol_set@.len() > 0) ==> has_char_from(
                s@,
                self@.symbol_set@,
            ))),
    {
        let c = &self.config;
        if c.length == 0 {
            return Err(Error::PasswordGeneration(String::from_str("password length cannot be zero")));
        }
        let mut charset: Vec<char> = Vec::new();
        if c.include_lowercase {
            push_str_chars(&mut charset, "abcdefghijklmnopqrstuvwxyz");
        }
        if c.include_uppercase {
            push_str_chars(&mut charset, "ABCDEFGHIJKLMNOPQRSTUVWXYZ");
        }
        if c.include_numbers {
            push_str_chars(&mut charset, "0123456789");
        }
        if c.include_symbols {
            push_str_chars(&mut charset, c.symbol_set.as_str());
        }
        proof {
            assert(charset@ =~= charset_of(self.config));
        }
        if charset.is_empty() {
            return Err(Error::PasswordGeneration(String::from_str("no character sets selected")));
        }
        let ghost cs = charset_of(self.config);
        let mut password: Vec<char> = Vec::new();
        if c.include_lowercase {
            let mut set: Vec<char> = Vec::new();
            push_str_chars(&mut set, "abcdefghijklmnopqrstuvwxyz");
            proof {
                reveal_strlit("abcdefghijklmnopqrstuvwxyz");
            }
            let picked = match choose_char(&set) {
                Some(p) => p,
                None => vstd::pervasive::unreached(),
            };
            proof {
                assert(set@ =~= lower_chars());
                lemma_concat_contains_left(lower_chars(), upper_or_empty(self.config), picked);
                lemma_concat_contains_left(
                    lower_chars() + upper_or_empty(self.config),
                    digits_or_empty(self.config),
                    picked,
                );
                lemma_concat_contains_left(
                    lower_chars() + upper_or_empty(self.config) + digits_or_empty(self.config),
                    symbols_or_empty(self.config),
                    picked,
                );
            }
            password.push(picked);
            proof {
                assert(password@[password@.len() - 1] == picked);
                assert(has_char_from(password@, lower_chars()));
            }
        }
        if c.include_uppercase {
            let mut set: Vec<char> = Vec::new();
            push_str_chars(&mut set, "ABCDEFGHIJKLMNOPQRSTUVWXYZ");
            proof {
                reveal_strlit("ABCDEFGHIJKLMNOPQRSTUVWXYZ");
            }
            let picked = match choose_char(&set) {
                Some(p) => p,
                None => vstd::pervasive::unreached(),
            };
            proof {
                assert(set@ =~= upper_chars());
                lemma_concat_contains_right(lower_or_empty(self.config), upper_chars(), picked);
                lemma_concat_contains_left(
                    lower_or_empty(self.config) + upper_chars(),
                    digits_or_empty(self.config),
                    picked,
                );
                lemma_concat_contains_left(
                    lower_or_empty(self.config) + upper_chars() + digits_or_empty(self.config),
                    symbols_or_empty(self.config),
                    picked,
                );
            }
            let ghost before_push = password@;
            password.push(picked);
            proof {
                assert(password@[password@.len() - 1] == picked);
                assert(has_char_from(password@, upper_chars()));
                if c.include_lowercase {
                    lemma_push_keeps_char_from(before_push, picked, lower_chars());
                }
            }
        }
        if c.include_numbers {
            let mut set: Vec<char> = Vec::new();
            push_str_chars(&mut set, "0123456789");
            proof {
                reveal_strlit("0123456789");
            }
            let picked = match choose_char(&set) {
                Some(p) => p,
                None => vstd::pervasive::unreached(),
            };
            proof {
                assert(set@ =~= digit_chars());
                lemma_concat_contains_right(
                    lower_or_empty(self.config) + upper_or_empty(self.config),
                    digit_chars(),
                    picked,
                );
                lemma_concat_contains_left(
                    lower_or_empty(self.config) + upper_or_empty(self.config) + digit_chars(),
                    symbols_or_empty(self.config),
                    picked,
                );
            }
            let ghost before_push = password@;
            password.push(picked);
            proof {
                assert(password@[password@.len() - 1] == picked);
                assert(has_char_from(password@, digit_chars()));
                if c.include_lowercase {
                    lemma_push_keeps_char_from(before_push, picked, lower_chars());
                }
                if c.include_uppercase {
                    lemma_push_keeps_char_from(before_push, picked, upper_chars());
                }
            }
        }
        if c.include_symbols {
            let mut set: Vec<char> = Vec::new();
            push_str_chars(&mut set, c.symbol_set.as_str());
            if set.len() > 0 {
                let picked = match choose_char(&set) {
                    Some(p) => p,
                    None => vstd::pervasive::unreached(),
                };
                proof {
                    assert(set@ =~= self.config.symbol_set@);
                    lemma_concat_contains_right(
                        lower_or_empty(self.config) + upper_or_empty(self.config)
                            + digits_or_empty(self.config),
                        self.config.symbol_set@,
                        picked,
                    );
                }
                let ghost before_push = password@;
                password.push(picked);
                proof {
                    assert(password@[password@.len() - 1] == picked);
                    assert(has_char_from(password@, self.config.symbol_set@));
                    if c.include_lowercase {
                        lemma_push_keeps_char_from(before_push, picked, lower_chars());
                    }
                    if c.include_uppercase {
                        lemma_push_keeps_char_from(before_push, picked, upper_chars());
                    }
                    if c.include_numbers {
                        lemma_push_keeps_char_from(before_push, picked, digit_chars());
                    }
                }
            }
        }
        proof {
            assert(password@.len() == enabled_count(self.config));
        }
        let target: usize = c.length as usize;
        while password.len() < target
            invariant
                cs == charset_of(self.config),
                target == self.config.length,
                charset@ == cs,
                charset@.len() > 0,
                enabled_count(self.config) >= target ==> password@.len() == enabled_count(
                    self.config,
                ),
                enabled_count(self.config) < target ==> enabled_count(self.config)
                    <= password@.len() <= target,
                forall|i: int| 0 <= i < password@.len() ==> cs.contains(#[trigger] password@[i]),
                self.config.include_lowercase ==> has_char_from(password@, lower_chars()),
                self.config.include_uppercase ==> has_char_from(password@, upper_chars()),
                self.config.include_numbers ==> has_char_from(password@, digit_chars()),
                (self.config.include_symbols && self.config.symbol_set@.len() > 0)
                    ==> has_char_from(password@, self.config.symbol_set@),
            decreases target - password@.len(),
        {
            let picked = match choose_char(&charset) {
                Some(p) => p,
                None => vstd::pervasive::unreached(),
            };
            let ghost before_push = password@;
            password.push(picked);
            proof {
                if self.config.include_lowercase {
                    lemma_push_keeps_char_from(before_push, picked, lower_chars());
                }
                if self.config.include_uppercase {
                    lemma_push_keeps_char_from(before_push, picked, upper_chars());
                }
                if self.config.include_numbers {
                    lemma_push_keeps_char_from(before_push, picked, digit_chars());
                }
                if self.config.include_symbols && self.config.symbol_set@.len() > 0 {
                    lemma_push_keeps_char_from(before_push, picked, self.config.symbol_set@);
                }
            }
        }
        proof {
            assert(password@.len() == generated_len(self.config));
        }
        let ghost before_shuffle = password@;
        shuffle_chars(&mut password);
        proof {
            broadcast use vstd::seq_lib::group_to_multiset_ensures;

            assert forall|i: int| 0 <= i < password@.len() implies cs.contains(
                #[trigger] password@[i],
            ) by {
                assert(password@.to_multiset().count(password@[i]) > 0);
                assert(before_shuffle.to_multiset().count(password@[i]) > 0);
                assert(before_shuffle.contains(password@[i]));
            }
            if self.config.include_lowercase {
                lemma_permutation_keeps_char_from(before_shuffle, password@, lower_chars());
            }
            if self.config.include_uppercase {
                lemma_permutation_keeps_char_from(before_shuffle, password@, upper_chars());
            }
            if self.config.include_numbers {
                lemma_permutation_keeps_char_from(before_shuffle, password@, digit_chars());
            }
            if self.config.include_symbols && self.config.symbol_set@.len() > 0 {
                lemma_permutation_keeps_char_from(
                    before_shuffle,
                    password@,
                    self.config.symbol_set@,
                );
            }
        }
        Ok(chars_to_string(&password))
    }

    /// Generates `count` passwords, each as `generate` yields them.
    pub fn generate_batch(&self, count: u32) -> (r: Result<Vec<String>, Error>)
        ensures
            count > 0 ==> (r is Err <==> (self@.length == 0 || charset_of(self@).len() == 0)),
            r matches Err(e) ==> e is PasswordGeneration,
            r matches Ok(v) ==> v@.len() == count && (forall|k: int|
                0 <= k < v@.len() ==> (#[trigger] v@[k])@.len() == generated_len(self@) && (
                forall|i: int|
                    0 <= i < v@[k]@.len() ==> charset_of(self@).contains(#[trigger] v@[k]@[i]))),
    {
        let mut passwords: Vec<String> = Vec::new();
        let n: usize = count as usize;
        let mut i: usize = 0;
        while i < n
            invariant
                i <= n,
                n == count,
                passwords@.len() == i,
                i > 0 ==> self.config.length > 0 && charset_of(self.config).len() > 0,
                forall|k: int|
                    0 <= k < i ==> (#[trigger] passwords@[k])@.len() == generated_len(self.config)
                        && (forall|t: int|
                        0 <= t < passwords@[k]@.len() ==> charset_of(self.config).contains(
                            #[trigger] passwords@[k]@[t],
                        )),
            decreases n - i,
        {
            match self.generate() {
                Ok(p) => passwords.push(p),
                Err(e) => return Err(e),
            }
            i += 1;
        }
        Ok(passwords)
    }

    /// Sets the requested length.
    pub fn set_length(&mut self, length: u32)
        ensures
            final(self)@ == (GeneratorConfig { length, ..old(self)@ }),
    {
        self.config.length = length;
    }

    /// Enables or disables uppercase letters.
    pub fn set_include_uppercase(&mut self, enabled: bool)
        ensures
            final(self)@ == (GeneratorConfig { include_uppercase: enabled, ..old(self)@ }),
    {
        self.config.include_uppercase = enabled;
    }

    /// Enables or disables lowercase letters.
    pub fn set_include_lowercase(&mut self, enabled: bool)
        ensures
            final(self)@ == (GeneratorConfig { include_lowercase: enabled, ..old(self)@ }),
    {
        self.config.include_lowercase = enabled;
    }

    /// Enables or disables digits.
    pub fn set_include_numbers(&mut self, enabled: bool)
        ensures
            final(self)@ == (GeneratorConfig { include_numbers: enabled, ..old(self)@ }),
    {
        self.config.include_numbers = enabled;
    }

    /// Enables or disables symbols.
    pub fn set_include_symbols(&mut self, enabled: bool)
        ensures
            final(self)@ == (GeneratorConfig { include_symbols: enabled, ..old(self)@ }),
    {
        self.config.include_symbols = enabled;
    }

    /// Replaces the symbol set.
    pub fn set_symbol_set(&mut self, symbols: String)
        ensures
            final(self)@ == (GeneratorConfig { symbol_set: symbols, ..old(self)@ }),
    {
        self.config.symbol_set = symbols;
    }
}

impl Default for PasswordGenerator {
    /// Same as `PasswordGenerator::new`.
    fn default() -> Self {
        PasswordGenerator::new()
    }
}

/// The lowercase segment of the charset, as enabled by the settings.
pub open spec fn lower_or_empty(c: GeneratorConfig) -> Seq<char> {
    if c.include_lowercase {
        lower_chars()
    } else {
        Seq::<char>::empty()
    }
}

/// The uppercase segment of the charset, as enabled by the settings.
pub open spec fn upper_or_empty(c: GeneratorConfig) -> Seq<char> {
    if c.include_uppercase {
        upper_chars()
    } else {
        Seq::<char>::empty()
    }
}

/// The digit segment of the charset, as enabled by the settings.
pub open spec fn digits_or_empty(c: GeneratorConfig) -> Seq<char> {
    if c.include_numbers {
        digit_chars()
    } else {
        Seq::<char>::empty()
    }
}

/// The symbol segment of the charset, as enabled by the settings.
pub open spec fn symbols_or_empty(c: GeneratorConfig) -> Seq<char> {
    if c.include_symbols {
        c.symbol_set@
    } else {
        Seq::<char>::empty()
    }
}

/// Generates one password of the given length with the default settings.
pub fn generate_password(length: u32) -> (r: Result<String, Error>)
    ensures
        r is Err <==> length == 0,
        r matches Err(e) ==> e is PasswordGeneration,
        r matches Ok(s) ==> s@.len() == (if length >= 4 {
            length as int
        } else {
            4int
        }),
        r matches Ok(s) ==> (forall|i: int|
            0 <= i < s@.len() ==> (lower_chars() + upper_chars() + digit_chars()
                + default_symbol_chars()).contains(#[trigger] s@[i])),
        r matches Ok(s) ==> has_char_from(s@, lower_chars()) && has_char_from(s@, upper_chars())
            && has_char_from(s@, digit_chars()) && has_char_from(s@, default_symbol_chars()),
{
    let mut config = GeneratorConfig::default();
    config.length = length;
    proof {
        reveal_strlit("abcdefghijklmnopqrstuvwxyz");
        reveal_strlit("!@#$%^&*()-_=+[]{}|;:,.<>?");
    }
    let generator = PasswordGenerator::with_config(config);
    let r = generator.generate();
    proof {
        let cfg = generator.config;
        assert(charset_of(cfg) =~= lower_chars() + upper_chars() + digit_chars()
            + default_symbol_chars());
    }
    r
}

/// Generates one password of the given length from letters and digits only.
pub fn generate_alphanumeric_password(length: u32) -> (r: Result<String, Error>)
    ensures
        r is Err <==> length == 0,
        r matches Err(e) ==> e is PasswordGeneration,
        r matches Ok(s) ==> s@.len() == (if length >= 3 {
            length as int
        } else {
            3int
        }) && (forall|i: int|
            0 <= i < s@.len() ==> (lower_chars() + upper_chars() + digit_chars()).contains(
                #[trigger] s@[i],
            )),
        r matches Ok(s) ==> has_char_from(s@, lower_chars()) && has_char_from(s@, upper_chars())
            && has_char_from(s@, digit_chars()),
{
    let config = GeneratorConfig {
        length,
        include_uppercase: true,
        include_lowercase: true,
        include_numbers: true,
        include_symbols: false,
        symbol_set: String::new(),
    };
    proof {
        reveal_strlit("abcdefghijklmnopqrstuvwxyz");
    }
    let generator = PasswordGenerator::with_config(config);
    let r = generator.generate();
    proof {
        let cfg = generator.config;
        assert(charset_of(cfg) =~= lower_chars() + upper_chars() + digit_chars());
    }
    r
}

} // verus!
