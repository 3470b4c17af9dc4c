//! The text of the verifier listing the command line prints.
use vstd::prelude::*;

use crate::registry::VerifierMetadata;
use crate::text::{concat_str, human_size, push_decimal, spec_decimal, spec_human_size};

verus! {

/// `n` spaces.
pub open spec fn spaces(n: nat) -> Seq<char> {
    Seq::new(n, |_i: int| ' ')
}

/// `s` padded with spaces on the right to at least `width` characters.
pub open spec fn pad_right(s: Seq<char>, width: nat) -> Seq<char> {
    if s.len() < width {
        s + spaces((width - s.len()) as nat)
    } else {
        s
    }
}

/// The first two lines of a verifier's entry: its proof type (padded to 30
/// characters), version and scheme, then its description.
pub open spec fn spec_entry_head(v: VerifierMetadata) -> Seq<char> {
    "  "@ + pad_right(v.proof_type_id@, 30) + " v"@ + v.version@ + " ("@ + v.scheme@ + ")\n"@
        + "    "@ + v.description@ + "\n"@
}

/// The curve line, when the verifier has a curve.
pub open spec fn spec_curve_line(v: VerifierMetadata) -> Seq<char> {
    if v.curve@.len() > 0 {
        "    curve: "@ + v.curve@ + "\n"@
    } else {
        Seq::empty()
    }
}

/// The lines on a trusted setup and on recursion, where they apply.
pub open spec fn spec_flag_lines(v: VerifierMetadata) -> Seq<char> {
    (if v.trusted_setup_required {
        "    trusted setup required\n"@
    } else {
        Seq::empty()
    }) + (if v.supports_recursion {
        "    supports recursion\n"@
    } else {
        Seq::empty()
    })
}

/// The maximum proof size line, when the verifier states one.
pub open spec fn spec_size_line(v: VerifierMetadata) -> Seq<char> {
    if v.max_proof_size > 0 {
        "    max proof size: "@ + spec_human_size(v.max_proof_size) + "\n"@
    } else {
        Seq::empty()
    }
}

/// The lines of one verifier in the listing: its proof type, version and
/// scheme; its description; its curve when it has one; whether it needs a
/// trusted setup or supports recursion; its maximum proof size when it states
/// one; then a blank line.
pub open spec fn spec_entry(v: VerifierMetadata) -> Seq<char> {
    spec_entry_head(v) + spec_curve_line(v) + spec_flag_lines(v) + spec_size_line(v) + "\n"@
}

/// The entries of the verifiers, one after the other.
pub open spec fn spec_entries(vs: Seq<VerifierMetadata>) -> Seq<char>
    decreases vs.len(),
{
    if vs.len() == 0 {
        Seq::empty()
    } else {
        spec_entries(vs.drop_last()) + spec_entry(vs.last())
    }
}

/// What the listing says when no verifier is registered.
pub open spec fn spec_no_verifiers() -> Seq<char> {
    "No verifiers loaded. Build verifier components with:\n  cargo build --target wasm32-unknown-unknown --release -p hello-verifier\n  wasm-tools component new target/wasm32-unknown-unknown/release/hello_verifier.wasm \\\n    --adapt default -o target/verifiers/hello-verifier.wasm\n"@
}

/// The listing: how many modules are loaded and how many verifiers are
/// registered, then the entry of each verifier, or a hint when there is none.
pub open spec fn spec_listing(component_count: nat, vs: Seq<VerifierMetadata>) -> Seq<char> {
    "WASM components loaded: "@ + spec_decimal(component_count) + "\nVerifiers registered: "@
        + spec_decimal(vs.len()) + "\n\n"@ + if vs.len() == 0 {
        spec_no_verifiers()
    } else {
        spec_entries(vs)
    }
}

/// The metadata the references point to.
pub open spec fn derefs(vs: Seq<&VerifierMetadata>) -> Seq<VerifierMetadata> {
    Seq::new(vs.len(), |i: int| *vs[i])
}

/// Appends `s` padded with spaces on the right to at least `width` characters.
fn push_padded(out: String, s: &str, width: usize) -> (r: String)
    ensures
        r@ == out@ + pad_right(s@, width as nat),
{
    let mut out = concat_str(out, s);
    let mut n = s.unicode_len();
    let ghost start = out@;
    while n < width
        invariant
            s@.len() <= n <= (if s@.len() < width { width as int } else { s@.len() as int }),
            out@ == start + spaces((n - s@.len()) as nat),
        decreases width - n,
    {
        out = concat_str(out, " ");
        proof {
            reveal_strlit(" ");
            assert(start + spaces((n - s@.len()) as nat) + " "@ =~= start + spaces(
                (n + 1 - s@.len()) as nat,
            ));
        }
        n = n + 1;
    }
    assert(spaces(0) =~= Seq::<char>::empty());
    proof {
        if s@.len() < width {
            assert(n == width);
        }
    }
    assert(out@ =~= start + if s@.len() < width as nat { spaces((width - s@.len()) as nat) } else {
        Seq::<char>::empty()
    });
    out
}

/// Appends the first two lines of a verifier's entry.
fn push_entry_head(out: String, v: &VerifierMetadata) -> (r: String)
    ensures
        r@ == out@ + spec_entry_head(*v),
{
    let ghost start = out@;
    let out = concat_str(out, "  ");
    let out = push_padded(out, v.proof_type_id.as_str(), 30);
    let out = concat_str(out, " v");
    let out = concat_str(out, v.version.as_str());
    let out = concat_str(out, " (");
    let out = concat_str(out, v.scheme.as_str());
    let out = concat_str(out, ")\n");
    let out = concat_str(out, "    ");
    let out = concat_str(out, v.description.as_str());
    let out = concat_str(out, "\n");
    assert(out@ =~= start + spec_entry_head(*v));
    out
}

/// Appends the curve line, when the verifier has a curve.
fn push_curve_line(out: String, v: &VerifierMetadata) -> (r: String)
    ensures
        r@ == out@ + spec_curve_line(*v),
{
    if v.curve.as_str().unicode_len() > 0 {
        let ghost start = out@;
        let out = concat_str(out, "    curve: ");
        let out = concat_str(out, v.curve.as_str());
        let out = concat_str(out, "\n");
        assert(out@ =~= start + spec_curve_line(*v));
        out
    } else {
        assert(out@ + spec_curve_line(*v) =~= out@);
        out
    }
}

/// Appends the lines on a trusted setup and on recursion, where they apply.
fn push_flag_lines(out: String, v: &VerifierMetadata) -> (r: String)
    ensures
        r@ == out@ + spec_flag_lines(*v),
{
    let ghost start = out@;
    let mut out = out;
    if v.trusted_setup_required {
        out = concat_str(out, "    trusted setup required\n");
    }
    if v.supports_recursion {
        out = concat_str(out, "    supports recursion\n");
    }
    assert(out@ =~= start + spec_flag_lines(*v));
    out
}

/// Appends the maximum proof size line, when the verifier states one.
fn push_size_line(out: String, v: &VerifierMetadata) -> (r: String)
    ensures
        r@ == out@ + spec_size_line(*v),
{
    if v.max_proof_size > 0 {
        let ghost start = out@;
        let out = concat_str(out, "    max proof size: ");
        let out = concat_str(out, human_size(v.max_proof_size).as_str());
        let out = concat_str(out, "\n");
        assert(out@ =~= start + spec_size_line(*v));
        out
    } else {
        assert(out@ + spec_size_line(*v) =~= out@);
        out
    }
}

/// Appends one verifier's entry.
fn push_entry(out: String, v: &VerifierMetadata) -> (r: String)
    ensures
        r@ == out@ + spec_entry(*v),
{
    let ghost start = out@;
    let out = push_entry_head(out, v);
    let out = push_curve_line(out, v);
    let out = push_flag_lines(out, v);
    let out = push_size_line(out, v);
    let out = concat_str(out, "\n");
    assert(out@ =~= start + spec_entry(*v));
    out
}

/// Renders the listing of the registered verifiers, as `spec_listing` says.
pub fn render_listing(component_count: usize, verifiers: &Vec<&VerifierMetadata>) -> (s: String)
    ensures
        s@ == spec_listing(component_count as nat, derefs(verifiers@)),
{
    let mut out = String::from_str("WASM components loaded: ");
    push_decimal(&mut out, component_count as u64);
    let mut out = concat_str(out, "\nVerifiers registered: ");
    push_decimal(&mut out, verifiers.len() as u64);
    let out = concat_str(out, "\n\n");
    let ghost head = out@;
    if verifiers.len() == 0 {
        let r = concat_str(
            out,
            "No verifiers loaded. Build verifier components with:\n  cargo build --target wasm32-unknown-unknown --release -p hello-verifier\n  wasm-tools component new target/wasm32-unknown-unknown/release/hello_verifier.wasm \\\n    --adapt default -o target/verifiers/hello-verifier.wasm\n",
        );
        return r;
    }
    let mut out = out;
    let mut i: usize = 0;
    while i < verifiers.len()
        invariant
            i <= verifiers@.len(),
            out@ == head + spec_entries(derefs(verifiers@).take(i as int)),
        decreases verifiers.len() - i,
    {
        out = push_entry(out, verifiers[i]);
        assert(derefs(verifiers@).take(i + 1).drop_last() =~= derefs(verifiers@).take(i as int));
        i = i + 1;
    }
    assert(derefs(verifiers@).take(i as int) =~= derefs(verifiers@));
    out
}

/// The line the listing gives a verifier that supports recursion.
pub open spec fn recursion_line() -> Seq<char> {
    "    supports recursion\n"@
}

/// Whether `line` occurs in `s` at position `i`.
pub open spec fn line_at(s: Seq<char>, line: Seq<char>, i: int) -> bool {
    0 <= i && i + line.len() <= s.len() && s.subrange(i, i + line.len()) == line
}

/// Whether `longer` is `shorter` with `line` inserted at position `i`.
pub open spec fn inserted_at(longer: Seq<char>, shorter: Seq<char>, line: Seq<char>, i: int) -> bool {
    0 <= i <= shorter.len() && longer == shorter.take(i) + line + shorter.skip(i)
}

/// Whether two descriptions of verifiers agree on everything but recursion.
pub open spec fn same_but_recursion(a: VerifierMetadata, b: VerifierMetadata) -> bool {
    &&& a.proof_type_id@ == b.proof_type_id@
    &&& a.version@ == b.version@
    &&& a.curve@ == b.curve@
    &&& a.scheme@ == b.scheme@
    &&& a.trusted_setup_required == b.trusted_setup_required
    &&& a.max_proof_size == b.max_proof_size
    &&& a.description@ == b.description@
}

/// Whatever its other flags, a verifier that supports recursion gets the line
/// "    supports recursion" in its entry, and its entry is that of the same
/// verifier without recursion with exactly that line inserted.
pub proof fn law_recursion_line(a: VerifierMetadata, b: VerifierMetadata)
    requires
        a.supports_recursion,
        !b.supports_recursion,
        same_but_recursion(a, b),
    ensures
        exists|i: int| #[trigger] inserted_at(spec_entry(a), spec_entry(b), recursion_line(), i),
        exists|i: int| #[trigger] line_at(spec_entry(a), recursion_line(), i),
{
    let setup = if a.trusted_setup_required {
        "    trusted setup required\n"@
    } else {
        Seq::<char>::empty()
    };
    let front = spec_entry_head(b) + spec_curve_line(b) + setup;
    let back = spec_size_line(b) + "\n"@;
    assert(spec_entry_head(a) == spec_entry_head(b));
    assert(spec_curve_line(a) == spec_curve_line(b));
    assert(spec_size_line(a) == spec_size_line(b));
    assert(spec_flag_lines(b) =~= setup);
    assert(spec_flag_lines(a) =~= setup + recursion_line());
    assert(spec_entry(b) =~= front + back);
    assert(spec_entry(a) =~= front + recursion_line() + back);
    let i = front.len() as int;
    assert(spec_entry(b).take(i) =~= front);
    assert(spec_entry(b).skip(i) =~= back);
    assert(inserted_at(spec_entry(a), spec_entry(b), recursion_line(), i));
    assert(spec_entry(a).subrange(i, i + recursion_line().len()) =~= recursion_line());
    assert(line_at(spec_entry(a), recursion_line(), i));
}

/// The line the listing gives a verifier that needs a trusted setup.
pub open spec fn trusted_setup_line() -> Seq<char> {
    "    trusted setup required\n"@
}

/// Whether two descriptions of verifiers agree on everything but the trusted setup.
pub open spec fn same_but_setup(a: VerifierMetadata, b: VerifierMetadata) -> bool {
    &&& a.proof_type_id@ == b.proof_type_id@
    &&& a.version@ == b.version@
    &&& a.curve@ == b.curve@
    &&& a.scheme@ == b.scheme@
    &&& a.supports_recursion == b.supports_recursion
    &&& a.max_proof_size == b.max_proof_size
    &&& a.description@ == b.description@
}

/// Whatever its other flags, a verifier that needs a trusted setup gets the
/// line "    trusted setup required" in its entry, and its entry is that of the
/// same verifier without it with exactly that line inserted.
pub proof fn law_trusted_setup_line(a: VerifierMetadata, b: VerifierMetadata)
    requires
        a.trusted_setup_required,
        !b.trusted_setup_required,
        same_but_setup(a, b),
    ensures
        exists|i: int| #[trigger] inserted_at(spec_entry(a), spec_entry(b), trusted_setup_line(), i),
        exists|i: int| #[trigger] line_at(spec_entry(a), trusted_setup_line(), i),
{
    let recursion = if a.supports_recursion {
        recursion_line()
    } else {
        Seq::<char>::empty()
    };
    let front = spec_entry_head(b) + spec_curve_line(b);
    let back = recursion + spec_size_line(b) + "\n"@;
    assert(spec_entry_head(a) == spec_entry_head(b));
    assert(spec_curve_line(a) == spec_curve_line(b));
    assert(spec_size_line(a) == spec_size_line(b));
    assert(spec_flag_lines(b) =~= recursion);
    assert(spec_flag_lines(a) =~= trusted_setup_line() + recursion);
    assert(spec_entry(b) =~= front + back);
    assert(spec_entry(a) =~= front + trusted_setup_line() + back);
    let i = front.len() as int;
    assert(spec_entry(b).take(i) =~= front);
    assert(spec_entry(b).skip(i) =~= back);
    assert(inserted_at(spec_entry(a), spec_entry(b), trusted_setup_line(), i));
    assert(spec_entry(a).subrange(i, i + trusted_setup_line().len()) =~= trusted_setup_line());
    assert(line_at(spec_entry(a), trusted_setup_line(), i));
}

} // verus!
