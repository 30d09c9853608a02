use vstd::prelude::*;
use std::ops::Range;

verus! {

/// A candidate variant, positioned by the caller at a 0-based start.
#[derive(Clone, Debug)]
pub enum Variant {
    /// Deletion of the given number of reference bases.
    Deletion(u64),
    /// Insertion of the given bases after the start position.
    Insertion(Vec<u8>),
    /// Single nucleotide variant with the given alternative base.
    SNV(u8),
    /// Multi nucleotide variant with the given alternative bases.
    MNV(Vec<u8>),
    /// Site without a suggested alternative allele.
    Reference,
}

/// Kinds of variants, optionally restricted to a half-open length range.
#[derive(Clone, Debug)]
pub enum VariantType {
    Insertion(Option<Range<u64>>),
    Deletion(Option<Range<u64>>),
    SNV,
    MNV,
    Reference,
}

impl Variant {
    pub open spec fn spec_len(&self) -> nat {
        match self {
            Variant::Deletion(l) => *l as nat,
            Variant::Insertion(s) => s@.len(),
            Variant::SNV(_) => 1,
            Variant::MNV(alt) => alt@.len(),
            Variant::Reference => 1,
        }
    }

    pub open spec fn spec_is_type(&self, vartype: VariantType) -> bool {
        match (self, vartype) {
            (Variant::Deletion(_), VariantType::Deletion(Some(r))) =>
                r.start <= self.spec_len() && self.spec_len() < r.end,
            (Variant::Insertion(_), VariantType::Insertion(Some(r))) =>
                r.start <= self.spec_len() && self.spec_len() < r.end,
            (Variant::Deletion(_), VariantType::Deletion(None)) => true,
            (Variant::Insertion(_), VariantType::Insertion(None)) => true,
            (Variant::SNV(_), VariantType::SNV) => true,
            (Variant::MNV(_), VariantType::MNV) => true,
            (Variant::Reference, VariantType::Reference) => true,
            _ => false,
        }
    }

    /// Whether this variant is of the given type (and length range, if any).
    pub fn is_type(&self, vartype: &VariantType) -> (r: bool)
        ensures
            r == self.spec_is_type(*vartype),
    {
        match (self, vartype) {
            (Variant::Deletion(_), VariantType::Deletion(Some(range))) => {
                let l = self.len();
                l >= range.start && l < range.end
            },
            (Variant::Insertion(_), VariantType::Insertion(Some(range))) => {
                let l = self.len();
                l >= range.start && l < range.end
            },
            (Variant::Deletion(_), VariantType::Deletion(None)) => true,
            (Variant::Insertion(_), VariantType::Insertion(None)) => true,
            (Variant::SNV(_), VariantType::SNV) => true,
            (Variant::MNV(_), VariantType::MNV) => true,
            (Variant::Reference, VariantType::Reference) => true,
            _ => false,
        }
    }

    /// Length of the variant: deleted or inserted bases, or the number of
    /// affected bases for SNVs, MNVs and reference sites.
    pub fn len(&self) -> (r: u64)
        ensures
            r as nat == self.spec_len(),
    {
        match self {
            Variant::Deletion(l) => *l,
            Variant::Insertion(s) => s.len() as u64,
            Variant::SNV(_) => 1,
            Variant::MNV(alt) => alt.len() as u64,
            Variant::Reference => 1,
        }
    }
}

/// Names under which variant types are written: INS, DEL, SNV, MNV, REF.
pub open spec fn variant_type_of_name(s: Seq<char>) -> Option<VariantType> {
    if s == "INS"@ {
        Some(VariantType::Insertion(None))
    } else if s == "DEL"@ {
        Some(VariantType::Deletion(None))
    } else if s == "SNV"@ {
        Some(VariantType::SNV)
    } else if s == "MNV"@ {
        Some(VariantType::MNV)
    } else if s == "REF"@ {
        Some(VariantType::Reference)
    } else {
        None
    }
}

/// Whether two strings hold the same characters.
pub fn str_equals(a: &str, b: &str) -> (r: bool)
    ensures
        r == (a@ == b@),
{
    let n = a.unicode_len();
    if n != b.unicode_len() {
        return false;
    }
    let mut i: usize = 0;
    while i < n
        invariant
            n == a@.len(),
            n == b@.len(),
            0 <= i <= n,
            forall|k: int| 0 <= k < i ==> a@[k] == b@[k],
        decreases n - i,
    {
        if a.get_char(i) != b.get_char(i) {
            return false;
        }
        i = i + 1;
    }
    assert(a@ =~= b@);
    true
}

impl VariantType {
    /// Parse a variant type from its name, `None` if the name is unknown.
    pub fn parse(string: &str) -> (r: Option<VariantType>)
        ensures
            r == variant_type_of_name(string@),
    {
        proof {
            reveal_strlit("INS");
            reveal_strlit("DEL");
            reveal_strlit("SNV");
            reveal_strlit("MNV");
            reveal_strlit("REF");
        }
        if str_equals(string, "INS") {
            Some(VariantType::Insertion(None))
        } else if str_equals(string, "DEL") {
            Some(VariantType::Deletion(None))
        } else if str_equals(string, "SNV") {
            Some(VariantType::SNV)
        } else if str_equals(string, "MNV") {
            Some(VariantType::MNV)
        } else if str_equals(string, "REF") {
            Some(VariantType::Reference)
        } else {
            None
        }
    }

    /// The variant type of a known name.
    pub fn from(string: &str) -> (r: VariantType)
        requires
            variant_type_of_name(string@) is Some,
        ensures
            Some(r) == variant_type_of_name(string@),
    {
        match VariantType::parse(string) {
            Some(t) => t,
            None => VariantType::Reference,
        }
    }
}

} // verus!
