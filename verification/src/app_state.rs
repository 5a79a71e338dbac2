//! Application state behind the presentation layer: the generation settings,
//! the generated passwords, and which of them were copied.
//!
//! The windowing toolkit only reads and writes these fields and calls the
//! methods here; all decisions about what is generated live in this module.

use vstd::prelude::*;
use vstd::string::StringExecFns;
use crate::composer::ComplexPasswordGenerator;
use crate::composer::PasswordGenerator;
use crate::composer::default_alphabets;

verus! {

/// The settings and results the user interface works on.
pub struct AppState {
    pub password_length: usize,
    pub include_uppercase: bool,
    pub include_lowercase: bool,
    pub include_numbers: bool,
    pub include_symbols: bool,
    pub num_passwords: usize,
    pub generated_passwords: Vec<String>,
    pub password_generator: ComplexPasswordGenerator,
    pub copied_password: Option<String>,
    pub all_passwords_copied: bool,
}

/// The text of the passwords numbered below `n`, one per line: empty for
/// none, and a newline between any two.
pub open spec fn joined_prefix(ps: Seq<Seq<char>>, n: int) -> Seq<char>
    decreases n,
{
    if n <= 0 {
        Seq::empty()
    } else if n == 1 {
        ps[0]
    } else {
        joined_prefix(ps, n - 1) + seq!['\n'] + ps[n - 1]
    }
}

impl AppState {
    /// The generator's classes agree with the check-box settings.
    pub open spec fn generator_matches(&self) -> bool {
        &&& self.password_generator.include_uppercase == self.include_uppercase
        &&& self.password_generator.include_lowercase == self.include_lowercase
        &&& self.password_generator.include_numbers == self.include_numbers
        &&& self.password_generator.include_symbols == self.include_symbols
    }

    /// At least one character class is ticked.
    pub open spec fn generation_enabled(&self) -> bool {
        self.include_uppercase || self.include_lowercase || self.include_numbers
            || self.include_symbols
    }

    /// The views of the generated passwords.
    pub open spec fn password_views(&self) -> Seq<Seq<char>> {
        self.generated_passwords@.map_values(|p: String| p@)
    }

    /// The state the application starts in: length 12, uppercase and
    /// lowercase enabled, one password requested, nothing generated or
    /// copied yet.
    pub fn new() -> (r: Self)
        ensures
            r.password_length == 12,
            r.include_uppercase,
            r.include_lowercase,
            !r.include_numbers,
            !r.include_symbols,
            r.num_passwords == 1,
            r.generated_passwords@.len() == 0,
            r.generator_matches(),
            default_alphabets(r.password_generator.characters),
            r.password_generator.characters.wf(),
            r.copied_password is None,
            !r.all_passwords_copied,
    {
        Self {
            password_length: 12,
            include_uppercase: true,
            include_lowercase: true,
            include_numbers: false,
            include_symbols: false,
            num_passwords: 1,
            generated_passwords: Vec::new(),
            password_generator: ComplexPasswordGenerator::new(true, true, false, false),
            copied_password: None,
            all_passwords_copied: false,
        }
    }

    /// Rebuild the generator from the current check-box settings, leaving
    /// everything else as it was.
    pub fn update_generator(&mut self)
        ensures
            final(self).generator_matches(),
            default_alphabets(final(self).password_generator.characters),
            final(self).password_generator.characters.wf(),
            final(self).password_length == old(self).password_length,
            final(self).include_uppercase == old(self).include_uppercase,
            final(self).include_lowercase == old(self).include_lowercase,
            final(self).include_numbers == old(self).include_numbers,
            final(self).include_symbols == old(self).include_symbols,
            final(self).num_passwords == old(self).num_passwords,
            final(self).generated_passwords == old(self).generated_passwords,
            final(self).copied_password == old(self).copied_password,
            final(self).all_passwords_copied == old(self).all_passwords_copied,
    {
        self.password_generator = ComplexPasswordGenerator::new(
            self.include_uppercase,
            self.include_lowercase,
            self.include_numbers,
            self.include_symbols,
        );
    }

    /// Whether the generate button may be pressed: some class is ticked.
    pub fn is_generation_enabled(&self) -> (r: bool)
        ensures
            r == self.generation_enabled(),
    {
        self.include_uppercase || self.include_lowercase || self.include_numbers
            || self.include_symbols
    }

    /// What a press of the generate button does: rebuild the generator from
    /// the settings, then generate the requested number of passwords, each
    /// of the requested length and drawn from the new generator's alphabet.
    pub fn generate_passwords(&mut self)
        requires
            old(self).generation_enabled(),
            1 <= old(self).password_length,
        ensures
            final(self).generator_matches(),
            default_alphabets(final(self).password_generator.characters),
            final(self).password_length == old(self).password_length,
            final(self).include_uppercase == old(self).include_uppercase,
            final(self).include_lowercase == old(self).include_lowercase,
            final(self).include_numbers == old(self).include_numbers,
            final(self).include_symbols == old(self).include_symbols,
            final(self).num_passwords == old(self).num_passwords,
            final(self).copied_password == old(self).copied_password,
            !final(self).all_passwords_copied,
            final(self).generated_passwords@.len() == old(self).num_passwords,
            forall|k: int|
                0 <= k < final(self).generated_passwords@.len()
                    ==> (#[trigger] final(self).generated_passwords@[k])@.len()
                    == old(self).password_length,
            forall|k: int, i: int|
                0 <= k < final(self).generated_passwords@.len()
                    && 0 <= i < final(self).generated_passwords@[k]@.len()
                    ==> final(self).password_generator.combined().contains(
                    #[trigger] final(self).generated_passwords@[k]@[i]),
    {
        self.all_passwords_copied = false;
        self.update_generator();
        let n = self.num_passwords;
        let mut out: Vec<String> = Vec::new();
        let mut i: usize = 0;
        while i < n
            invariant
                i <= n,
                out@.len() == i,
                self.password_generator.wf(),
                1 <= self.password_length,
                forall|k: int|
                    0 <= k < out@.len() ==> (#[trigger] out@[k])@.len() == self.password_length,
                forall|k: int, j: int|
                    0 <= k < out@.len() && 0 <= j < out@[k]@.len()
                        ==> self.password_generator.combined().contains(#[trigger] out@[k]@[j]),
            decreases n - i,
        {
            let p = self.password_generator.generate_password(self.password_length);
            out.push(p);
            i += 1;
        }
        self.generated_passwords = out;
    }

    /// The generated passwords as one text, one per line, as the copy-all
    /// button hands them to the clipboard.
    pub fn all_passwords_text(&self) -> (r: String)
        ensures
            r@ == joined_prefix(self.password_views(), self.password_views().len() as int),
    {
        let mut r = String::new();
        let mut i: usize = 0;
        while i < self.generated_passwords.len()
            invariant
                i <= self.generated_passwords@.len(),
                r@ == joined_prefix(self.password_views(), i as int),
            decreases self.generated_passwords@.len() - i,
        {
            let ghost pre = r@;
            if i > 0 {
                crate::composer::push_char(&mut r, '\n');
            }
            r.append(self.generated_passwords[i].as_str());
            i += 1;
            proof {
                assert(self.password_views()[i - 1] == self.generated_passwords@[i - 1]@);
                if i == 1 {
                    assert(r@ =~= joined_prefix(self.password_views(), i as int));
                } else {
                    assert(pre.push('\n') =~= pre + seq!['\n']);
                    assert(r@ =~= joined_prefix(self.password_views(), i as int));
                }
            }
        }
        r
    }
}

} // verus!
