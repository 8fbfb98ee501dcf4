//! Shared report formatting rules: the width of the implementation column.

use vstd::prelude::*;

verus! {

/// The output format of the conformance report.
#[derive(Debug, Clone, Copy, PartialEq, Eq, Structural)]
pub enum Format {
    Table,
    Github,
}

/// The canonical token of an output format.
pub open spec fn spec_format_tag(f: Format) -> Seq<char> {
    match f {
        Format::Table => "table"@,
        Format::Github => "github"@,
    }
}

impl Format {
    /// The lowercase token of the format.
    pub fn as_str(&self) -> (r: &'static str)
        ensures
            r@ == spec_format_tag(*self),
    {
        match self {
            Format::Table => "table",
            Format::Github => "github",
        }
    }
}

/// The byte width of a name, as the tables measure it.
pub open spec fn spec_byte_width(s: Seq<char>) -> int {
    (vstd::utf8::encode_utf8(s).len() as usize) as int
}

/// The maximum name width from position `i` on, seeded with the width of the
/// column header.
pub open spec fn spec_impl_width_from(names: Seq<String>, i: int) -> int
    decreases names.len() - i,
{
    if i < 0 || i >= names.len() {
        "Implementation"@.len() as int
    } else {
        let rest = spec_impl_width_from(names, i + 1);
        let w = spec_byte_width(names[i]@);
        if w > rest {
            w
        } else {
            rest
        }
    }
}

/// The implementation column width: the longest of the names and the header,
/// and at least 15.
pub open spec fn spec_impl_width(names: Seq<String>) -> int {
    let m = spec_impl_width_from(names, 0);
    if m < 15 {
        15
    } else {
        m
    }
}

proof fn lemma_width_from_lower_bound(names: Seq<String>, i: int)
    requires
        0 <= i <= names.len(),
    ensures
        spec_impl_width_from(names, i) >= "Implementation"@.len() as int,
    decreases names.len() - i,
{
    if i < names.len() {
        lemma_width_from_lower_bound(names, i + 1);
    }
}

/// The implementation column width for a table over these names.
pub fn calculate_impl_width(implementations: &[String]) -> (r: usize)
    ensures
        r as int == spec_impl_width(implementations@),
{
    let n = implementations.len();
    let header_len = "Implementation".len();
    proof {
        broadcast use vstd::string::is_ascii_spec_bytes;

        reveal_strlit("Implementation");
        assert("Implementation".is_ascii());
        assert(header_len == "Implementation"@.len());
        lemma_width_from_lower_bound(implementations@, 0);
    }
    let mut m: usize = header_len;
    let mut i: usize = 0;
    while i < n
        invariant
            0 <= i <= n,
            n == implementations@.len(),
            m as int >= "Implementation"@.len() as int,
            ({
                let rest = spec_impl_width_from(implementations@, i as int);
                (if m as int > rest {
                    m as int
                } else {
                    rest
                }) == spec_impl_width_from(implementations@, 0)
            }),
        decreases n - i,
    {
        let name: &String = &implementations[i];
        let w = name.as_str().len();
        if w > m {
            m = w;
        }
        i = i + 1;
    }
    proof {
        reveal_strlit("Implementation");
        assert(spec_impl_width_from(implementations@, n as int) == "Implementation"@.len() as int);
    }
    if m < 15 {
        15
    } else {
        m
    }
}

} // verus!
