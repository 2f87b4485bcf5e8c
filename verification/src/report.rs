//! What the command line reports about a parsed story.
use vstd::prelude::*;
use crate::format::{DiagModel, Diagnostic, ParseOutput, Severity, diags_model};
use crate::text::{concat2, concat3, nat_text, strings_model, u128_to_string, usize_to_string};

verus! {

/// The number of errors among the diagnostics.
pub open spec fn error_count(ds: Seq<DiagModel>) -> nat
    decreases ds.len(),
{
    if ds.len() == 0 {
        0
    } else {
        error_count(ds.drop_last()) + if ds.last().severity == Severity::Error {
            1nat
        } else {
            0nat
        }
    }
}

/// The lines that the `check` command prints for one diagnostic: its label and
/// message, then, where it has one, its location counted from 1.
pub open spec fn diag_lines(d: DiagModel) -> Seq<Seq<char>> {
    let label = if d.severity == Severity::Error {
        "ERROR"@
    } else {
        "WARNING"@
    };
    let head = seq!["["@ + label + "] "@ + d.message];
    match d.span {
        Some(s) => head.push(
            "  at line "@ + nat_text((s.line + 1) as nat) + ", column "@ + nat_text(
                (s.column + 1) as nat,
            ),
        ),
        None => head,
    }
}

/// The lines of all diagnostics, in order.
pub open spec fn all_diag_lines(ds: Seq<DiagModel>) -> Seq<Seq<char>>
    decreases ds.len(),
{
    if ds.len() == 0 {
        Seq::empty()
    } else {
        all_diag_lines(ds.drop_last()) + diag_lines(ds.last())
    }
}

/// What the `check` command prints: the story's title, author, start passage and number
/// of passages, then either that there is nothing to report, or each
/// diagnostic and the counts of errors and warnings.
pub open spec fn report_lines(out: ParseOutput) -> Seq<Seq<char>> {
    let ds = diags_model(out.diagnostics@);
    let head = seq![
        "Story: "@ + out.config.title@,
        "Author: "@ + out.config.author@,
        "Start passage: "@ + out.config.start@,
        "Passages: "@ + nat_text(out.graph.nodes@.len()),
        Seq::<char>::empty(),
    ];
    if ds.len() == 0 {
        head.push("No issues found."@)
    } else {
        let e = error_count(ds);
        head + all_diag_lines(ds) + seq![
            Seq::<char>::empty(),
            nat_text(e) + " error(s), "@ + nat_text((ds.len() - e) as nat) + " warning(s)"@,
        ]
    }
}

proof fn lemma_error_count_bound(ds: Seq<DiagModel>)
    ensures
        error_count(ds) <= ds.len(),
    decreases ds.len(),
{
    if ds.len() > 0 {
        lemma_error_count_bound(ds.drop_last());
    }
}

/// The number of errors among the diagnostics.
pub fn count_errors(diagnostics: &Vec<Diagnostic>) -> (r: usize)
    ensures
        r == error_count(diags_model(diagnostics@)),
{
    let ghost ds = diags_model(diagnostics@);
    let mut n: usize = 0;
    let mut k: usize = 0;
    while k < diagnostics.len()
        invariant
            k <= diagnostics.len(),
            ds == diags_model(diagnostics@),
            n == error_count(ds.take(k as int)),
            n <= k,
        decreases diagnostics.len() - k,
    {
        let ghost t = ds.take(k + 1);
        assert(t.drop_last() =~= ds.take(k as int));
        if diagnostics[k].severity == Severity::Error {
            n = n + 1;
        }
        k = k + 1;
    }
    assert(ds.take(diagnostics.len() as int) =~= ds);
    n
}

/// Whether any diagnostic is an error (a story with one is not run).
pub fn has_errors(diagnostics: &Vec<Diagnostic>) -> (r: bool)
    ensures
        r == (error_count(diags_model(diagnostics@)) > 0),
{
    count_errors(diagnostics) > 0
}

fn diag_report(d: &Diagnostic, out: &mut Vec<String>)
    ensures
        strings_model(final(out)@) == strings_model(old(out)@) + diag_lines(d.model()),
{
    proof {
        reveal_strlit("ERROR");
        reveal_strlit("WARNING");
    }
    let ghost before = out@;
    let label = if d.severity == Severity::Error {
        "ERROR"
    } else {
        "WARNING"
    };
    let head = concat3("[", label, "] ");
    out.push(concat2(head.as_str(), d.message.as_str()));
    match d.span {
        Some(s) => {
            let line = u128_to_string((s.line as u128) + 1);
            let col = u128_to_string((s.column as u128) + 1);
            let a = concat3("  at line ", line.as_str(), ", column ");
            let ghost mid = out@;
            out.push(concat2(a.as_str(), col.as_str()));
            assert(strings_model(out@) =~= strings_model(before) + diag_lines(d.model()));
        },
        None => {
            assert(strings_model(out@) =~= strings_model(before) + diag_lines(d.model()));
        },
    }
}

/// The lines that the `check` command prints for a parsed story.
pub fn check_report(output: &ParseOutput) -> (r: Vec<String>)
    ensures
        strings_model(r@) == report_lines(*output),
{
    let ghost ds = diags_model(output.diagnostics@);
    let mut out: Vec<String> = Vec::new();
    out.push(concat2("Story: ", output.config.title.as_str()));
    out.push(concat2("Author: ", output.config.author.as_str()));
    out.push(concat2("Start passage: ", output.config.start.as_str()));
    let n = usize_to_string(output.graph.nodes.len());
    out.push(concat2("Passages: ", n.as_str()));
    out.push(String::new());
    let ghost head = strings_model(out@);
    if output.diagnostics.len() == 0 {
        out.push(String::from_str("No issues found."));
        assert(strings_model(out@) =~= report_lines(*output));
        return out;
    }
    let mut k: usize = 0;
    assert(ds.take(0) =~= Seq::<DiagModel>::empty());
    assert(strings_model(out@) =~= head + all_diag_lines(ds.take(0)));
    while k < output.diagnostics.len()
        invariant
            k <= output.diagnostics.len(),
            ds == diags_model(output.diagnostics@),
            strings_model(out@) == head + all_diag_lines(ds.take(k as int)),
        decreases output.diagnostics.len() - k,
    {
        let ghost t = ds.take(k + 1);
        assert(t.drop_last() =~= ds.take(k as int));
        diag_report(&output.diagnostics[k], &mut out);
        assert(strings_model(out@) =~= head + all_diag_lines(t));
        k = k + 1;
    }
    assert(ds.take(output.diagnostics.len() as int) =~= ds);
    let errors = count_errors(&output.diagnostics);
    proof {
        lemma_error_count_bound(ds);
    }
    let warnings = output.diagnostics.len() - errors;
    let ghost body = out@;
    out.push(String::new());
    let e = usize_to_string(errors);
    let w = usize_to_string(warnings);
    let a = concat3(e.as_str(), " error(s), ", w.as_str());
    let last = concat2(a.as_str(), " warning(s)");
    let ghost lastv = last@;
    out.push(last);
    assert(strings_model(out@) =~= strings_model(body).push(Seq::<char>::empty()).push(lastv));
    assert(head =~= seq![
        "Story: "@ + output.config.title@,
        "Author: "@ + output.config.author@,
        "Start passage: "@ + output.config.start@,
        "Passages: "@ + nat_text(output.graph.nodes@.len()),
        Seq::<char>::empty(),
    ]);
    assert(strings_model(out@) =~= head + all_diag_lines(ds) + seq![Seq::<char>::empty(), lastv]);
    out
}

/// The lines printed before refusing to run a story with errors: each
/// diagnostic with its severity.
pub open spec fn error_listing_lines(ds: Seq<DiagModel>) -> Seq<Seq<char>> {
    seq!["Errors found in story file:"@] + ds.map_values(
        |d: DiagModel|
            "  ["@ + (if d.severity == Severity::Error {
                "Error"@
            } else {
                "Warning"@
            }) + "] "@ + d.message,
    )
}

/// The listing printed before refusing to run a story with errors.
pub fn error_listing(diagnostics: &Vec<Diagnostic>) -> (r: Vec<String>)
    ensures
        strings_model(r@) == error_listing_lines(diags_model(diagnostics@)),
{
    proof {
        reveal_strlit("Error");
        reveal_strlit("Warning");
    }
    let ghost ds = diags_model(diagnostics@);
    let mut out: Vec<String> = Vec::new();
    out.push(String::from_str("Errors found in story file:"));
    assert(strings_model(out@) =~= error_listing_lines(ds.take(0)));
    let mut k: usize = 0;
    while k < diagnostics.len()
        invariant
            k <= diagnostics.len(),
            ds == diags_model(diagnostics@),
            strings_model(out@) == error_listing_lines(ds.take(k as int)),
        decreases diagnostics.len() - k,
    {
        let d = &diagnostics[k];
        let label = if d.severity == Severity::Error {
            "Error"
        } else {
            "Warning"
        };
        let a = concat3("  [", label, "] ");
        let ghost before = out@;
        let line = concat2(a.as_str(), d.message.as_str());
        let ghost lv = line@;
        out.push(line);
        assert(strings_model(out@) =~= strings_model(before).push(lv));
        assert(ds.take(k + 1).map_values(
            |d: DiagModel|
                "  ["@ + (if d.severity == Severity::Error {
                    "Error"@
                } else {
                    "Warning"@
                }) + "] "@ + d.message,
        ) =~= ds.take(k as int).map_values(
            |d: DiagModel|
                "  ["@ + (if d.severity == Severity::Error {
                    "Error"@
                } else {
                    "Warning"@
                }) + "] "@ + d.message,
        ).push(lv));
        assert(strings_model(out@) =~= error_listing_lines(ds.take(k + 1)));
        k = k + 1;
    }
    assert(ds.take(diagnostics.len() as int) =~= ds);
    out
}

} // verus!
