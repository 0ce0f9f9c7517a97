use vstd::prelude::*;

verus! {

/// The opening line of every document: the standalone class.
pub open spec fn header_text() -> Seq<char> {
    "\\documentclass{standalone}\n"@
}

/// The line that includes one package.
pub open spec fn directive(package: Seq<char>) -> Seq<char> {
    "\\usepackage{"@ + package + "}\n"@
}

/// One inclusion line per package, in the order of the list.
pub open spec fn package_block(packages: Seq<Seq<char>>) -> Seq<char>
    decreases packages.len(),
{
    if packages.len() == 0 {
        Seq::empty()
    } else {
        package_block(packages.drop_last()) + directive(packages.last())
    }
}

/// Where the line of the `i`-th package starts inside the package block.
pub open spec fn directive_offset(packages: Seq<Seq<char>>, i: int) -> int {
    package_block(packages.take(i)).len() as int
}

/// The equation holds a math-mode delimiter of its own: `$`, `\[` or `\(`.
pub open spec fn has_math_delimiter(eq: Seq<char>) -> bool {
    exists|i: int|
        0 <= i < eq.len() && (#[trigger] eq[i] == '$' || (eq[i] == '\\' && i + 1 < eq.len() && (
        eq[i + 1] == '[' || eq[i + 1] == '(')))
}

/// The equation as it stands in the document body: inside display-math
/// delimiters when wrapping is asked for and it has no delimiter of its own.
pub open spec fn body_text(eq: Seq<char>, auto_wrap: bool) -> Seq<char> {
    if auto_wrap && !has_math_delimiter(eq) {
        "\\["@ + eq + "\\]"@
    } else {
        eq
    }
}

/// The whole document for an equation and a package list.
pub open spec fn document_text(eq: Seq<char>, packages: Seq<Seq<char>>, auto_wrap: bool) -> Seq<
    char,
> {
    header_text() + package_block(packages) + "\\begin{document}\n"@ + body_text(eq, auto_wrap)
        + "\n\\end{document}\n"@
}

/// The views of a list of strings.
pub open spec fn views(v: Seq<String>) -> Seq<Seq<char>> {
    v.map_values(|s: String| s@)
}

fn contains_math_delimiter(eq: &str) -> (r: bool)
    ensures
        r == has_math_delimiter(eq@),
{
    let n = eq.unicode_len();
    let mut i: usize = 0;
    while i < n
        invariant
            n == eq@.len(),
            i <= n,
            forall|k: int|
                0 <= k < i ==> !(#[trigger] eq@[k] == '$' || (eq@[k] == '\\' && k + 1 < eq@.len()
                    && (eq@[k + 1] == '[' || eq@[k + 1] == '('))),
        decreases n - i,
    {
        let c = eq.get_char(i);
        if c == '$' {
            return true;
        }
        if c == '\\' && i + 1 < n {
            let d = eq.get_char(i + 1);
            if d == '[' || d == '(' {
                return true;
            }
        }
        i = i + 1;
    }
    false
}

/// The package list used when none is given: `amsmath` alone.
pub fn default_packages() -> (r: Vec<String>)
    ensures
        views(r@) == seq!["amsmath"@],
        r@.len() == 1,
{
    let mut r: Vec<String> = Vec::new();
    r.push(String::from_str("amsmath"));
    assert(views(r@) =~= seq!["amsmath"@]);
    r
}

/// Writes the document that typesets `equation`: the standalone class, one
/// inclusion line per package in the given order, then the body.
pub fn build_document(equation: &str, packages: &Vec<String>, auto_wrap: bool) -> (r: String)
    ensures
        r@ == document_text(equation@, views(packages@), auto_wrap),
{
    let mut out = String::from_str("\\documentclass{standalone}\n");
    let mut i: usize = 0;
    while i < packages.len()
        invariant
            i <= packages@.len(),
            out@ == header_text() + package_block(views(packages@).take(i as int)),
        decreases packages@.len() - i,
    {
        proof {
            let ps = views(packages@);
            assert(ps.take(i + 1).drop_last() =~= ps.take(i as int));
            assert(ps.take(i + 1).last() == packages@[i as int]@);
        }
        out.append("\\usepackage{");
        out.append(packages[i].as_str());
        out.append("}\n");
        proof {
            let ps = views(packages@);
            assert(out@ =~= header_text() + package_block(ps.take(i + 1)));
        }
        i = i + 1;
    }
    assert(views(packages@).take(packages@.len() as int) =~= views(packages@));
    out.append("\\begin{document}\n");
    if auto_wrap && !contains_math_delimiter(equation) {
        out.append("\\[");
        out.append(equation);
        out.append("\\]");
    } else {
        out.append(equation);
    }
    out.append("\n\\end{document}\n");
    assert(out@ =~= document_text(equation@, views(packages@), auto_wrap));
    out
}

proof fn lemma_block_prefix(ps: Seq<Seq<char>>, i: int)
    requires
        0 <= i <= ps.len(),
    ensures
        package_block(ps.take(i)).len() <= package_block(ps).len(),
        package_block(ps.take(i)) == package_block(ps).subrange(0, package_block(ps.take(i)).len() as int),
    decreases ps.len() - i,
{
    if i == ps.len() {
        assert(ps.take(i) =~= ps);
    } else {
        lemma_block_prefix(ps, i + 1);
        assert(ps.take(i + 1).drop_last() =~= ps.take(i));
        let a = package_block(ps.take(i));
        let b = package_block(ps.take(i + 1));
        let full = package_block(ps);
        assert(b == a + directive(ps.take(i + 1).last()));
        assert(a =~= b.subrange(0, a.len() as int));
        assert(full.subrange(0, a.len() as int) =~= full.subrange(0, b.len() as int).subrange(0, a.len() as int));
    }
}

/// The document holds one inclusion line per entry of a non-empty package
/// list, in the list's order, between the class line and the body: the
/// package block splits into exactly those lines, one after another.
pub proof fn lemma_one_directive_per_package(
    eq: Seq<char>,
    packages: Seq<Seq<char>>,
    auto_wrap: bool,
)
    requires
        packages.len() > 0,
    ensures
        document_text(eq, packages, auto_wrap) == header_text() + package_block(packages)
            + "\\begin{document}\n"@ + body_text(eq, auto_wrap) + "\n\\end{document}\n"@,
        directive_offset(packages, 0) == 0,
        directive_offset(packages, packages.len() as int) == package_block(packages).len(),
        forall|i: int|
            0 <= i < packages.len() ==> package_block(packages).subrange(
                #[trigger] directive_offset(packages, i),
                directive_offset(packages, i + 1),
            ) == directive(packages[i]),
{
    assert(packages.take(0) =~= Seq::<Seq<char>>::empty());
    assert(packages.take(packages.len() as int) =~= packages);
    assert forall|i: int| 0 <= i < packages.len() implies package_block(packages).subrange(
        #[trigger] directive_offset(packages, i),
        directive_offset(packages, i + 1),
    ) == directive(packages[i]) by {
        lemma_block_prefix(packages, i + 1);
        assert(packages.take(i + 1).drop_last() =~= packages.take(i));
        let a = package_block(packages.take(i));
        let b = package_block(packages.take(i + 1));
        let full = package_block(packages);
        assert(b == a + directive(packages[i]));
        assert(full.subrange(a.len() as int, b.len() as int) =~= b.subrange(a.len() as int, b.len() as int));
        assert(b.subrange(a.len() as int, b.len() as int) =~= directive(packages[i]));
    }
}

} // verus!
