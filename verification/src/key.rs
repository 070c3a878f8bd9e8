//! Keys under which programs live in the backend.

use crate::text::{
    has_prefix, has_suffix, lemma_upper_concat, lemma_upper_idempotent, lemma_upper_skip,
    to_upper, upper,
};
use vstd::prelude::*;
use vstd::string::{StrSliceExecFns, StringExecFns};

verus! {

/// The prefix of every backend key that belongs to the program store.
pub open spec fn prefix() -> Seq<char> {
    "endbasic-program:"@
}

/// The extension that every program name carries, in canonical case.
pub open spec fn extension() -> Seq<char> {
    ".BAS"@
}

/// Whether `name` is a program name: it ends, case-insensitively, with the
/// program extension.
pub open spec fn is_program_name(name: Seq<char>) -> bool {
    extension().is_suffix_of(upper(name))
}

/// Whether the raw backend key `raw` belongs to the program store.
pub open spec fn is_program_key(raw: Seq<char>) -> bool {
    prefix().is_prefix_of(raw) && extension().is_suffix_of(upper(raw))
}

/// The raw backend key for the program called `name`.
pub open spec fn key_for(name: Seq<char>) -> Seq<char> {
    prefix() + upper(name)
}

/// The program name held in the raw backend key `raw`, in the case it was
/// stored with.
pub open spec fn name_of(raw: Seq<char>) -> Seq<char> {
    raw.skip(prefix().len() as int)
}

/// The canonical form of the raw backend key `raw`: its name in upper case.
pub open spec fn canonical_of(raw: Seq<char>) -> Seq<char> {
    prefix() + upper(name_of(raw))
}

/// Key of a program in the backend.
#[derive(Debug)]
pub struct Key(String);

impl View for Key {
    type V = Seq<char>;

    closed spec fn view(&self) -> Seq<char> {
        self.0@
    }
}

/// A program key is at least as long as its prefix and the extension
/// together, and the name it holds is a program name.
pub proof fn lemma_program_key_name(raw: Seq<char>)
    requires
        is_program_key(raw),
    ensures
        raw.len() >= prefix().len() + extension().len(),
        raw == prefix() + name_of(raw),
        is_program_name(name_of(raw)),
{
    reveal_strlit("endbasic-program:");
    reveal_strlit(".BAS");
    let n = raw.len() as int;
    let up = upper(raw);
    assert(up.len() == n);
    assert(up.subrange(n - 4, n) == extension());
    assert(up.subrange(n - 4, n)[0] == '.');
    assert(up[n - 4] == '.');
    assert(raw.subrange(0, 17) == prefix());
    if n < 21 {
        let i = n - 4;
        assert(raw.subrange(0, 17)[i] == raw[i]);
        assert(false);
    }
    assert(raw =~= prefix() + name_of(raw));
    lemma_upper_skip(raw, 17);
    assert(upper(name_of(raw)).subrange(n - 21, n - 17) =~= up.subrange(n - 4, n));
}

/// Names that differ only in case have the same key.
pub proof fn lemma_key_ignores_case(a: Seq<char>, b: Seq<char>)
    requires
        upper(a) == upper(b),
    ensures
        key_for(a) == key_for(b),
{
}

/// The key for a program name and the key for that name in upper case have
/// the same canonical form, which is the key itself.
pub proof fn lemma_canonical_ignores_case(name: Seq<char>)
    requires
        is_program_name(name),
    ensures
        is_program_name(upper(name)),
        canonical_of(key_for(name)) == canonical_of(key_for(upper(name))),
        canonical_of(key_for(name)) == key_for(name),
{
    lemma_upper_idempotent(name);
    lemma_key_for_is_program_key(name);
}

/// The key built for a program name is a program key, and the name that it
/// holds is the given name in upper case.
pub proof fn lemma_key_for_is_program_key(name: Seq<char>)
    requires
        is_program_name(name),
    ensures
        is_program_key(key_for(name)),
        name_of(key_for(name)) == upper(name),
{
    reveal_strlit("endbasic-program:");
    reveal_strlit(".BAS");
    let raw = key_for(name);
    let un = upper(name);
    assert(raw.subrange(0, 17) =~= prefix());
    lemma_upper_concat(prefix(), un);
    lemma_upper_idempotent(name);
    let m = un.len() as int;
    assert(un.subrange(m - 4, m) == extension());
    assert(upper(raw).subrange(17 + m - 4, 17 + m) =~= un.subrange(m - 4, m));
    assert(name_of(raw) =~= un);
}

impl PartialEq for Key {
    fn eq(&self, other: &Key) -> (r: bool) {
        self.0 == other.0
    }
}

impl vstd::std_specs::cmp::PartialEqSpecImpl for Key {
    open spec fn obeys_eq_spec() -> bool {
        true
    }

    open spec fn eq_spec(&self, other: &Key) -> bool {
        self@ == other@
    }
}

impl Eq for Key {

}

impl Key {
    #[verifier::type_invariant]
    spec fn well_formed(&self) -> bool {
        is_program_key(self.0@)
    }

    /// Returns whether `name` is a program name, which a key can be made
    /// for.
    pub fn admits(name: &str) -> (r: bool)
        ensures
            r == is_program_name(name@),
    {
        let shouted = to_upper(name);
        has_suffix(shouted.as_str(), ".BAS")
    }

    /// Creates the key for the program called `name`.
    ///
    /// The name is converted to upper case, so that names that differ only
    /// in case address the same program.
    pub fn for_name(name: &str) -> (key: Key)
        requires
            is_program_name(name@),
        ensures
            key@ == key_for(name@),
    {
        let mut raw = String::from_str("endbasic-program:");
        let shouted = to_upper(name);
        raw.append(shouted.as_str());
        proof {
            lemma_key_for_is_program_key(name@);
        }
        Key(raw)
    }

    /// Returns the canonical form of this key, which has the program name in
    /// upper case.
    pub fn canonical(&self) -> (key: Key)
        ensures
            key@ == canonical_of(self@),
    {
        let mut raw = String::from_str("endbasic-program:");
        let shouted = to_upper(self.name());
        raw.append(shouted.as_str());
        proof {
            use_type_invariant(self);
            lemma_program_key_name(self@);
            lemma_key_for_is_program_key(name_of(self@));
        }
        Key(raw)
    }

    /// Reads a key from its serialized form, or returns `None` if `raw` is
    /// not a key of the program store.
    ///
    /// The case of the name in `raw` is kept as it is.
    pub fn parse(raw: &str) -> (r: Option<Key>)
        ensures
            r is Some <==> is_program_key(raw@),
            r matches Some(key) ==> key@ == raw@,
    {
        if has_prefix(raw, "endbasic-program:") {
            let shouted = to_upper(raw);
            if has_suffix(shouted.as_str(), ".BAS") {
                return Some(Key(raw.to_owned()));
            }
        }
        None
    }

    /// Returns the name of the program that this key stands for.
    pub fn name(&self) -> (r: &str)
        ensures
            r@ == name_of(self@),
            is_program_key(self@),
    {
        proof {
            use_type_invariant(self);
            lemma_program_key_name(self@);
            reveal_strlit("endbasic-program:");
        }
        let raw = self.0.as_str();
        raw.substring_char(17, raw.unicode_len())
    }

    /// Returns the serialized form of this key, as the backend stores it.
    pub fn serialized(&self) -> (r: &str)
        ensures
            r@ == self@,
            is_program_key(self@),
    {
        proof {
            use_type_invariant(self);
        }
        self.0.as_str()
    }
}

} // verus!
