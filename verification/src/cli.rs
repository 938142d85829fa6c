//! Command-line presentation: error reports that name the failed operation
//! and suggest a fix, and the progress line.
use vstd::prelude::*;
use vstd::string::*;

use crate::text::{
    contains_seq, contains_str, decimal_spec, join, join_spec, lowercase_text, push_decimal,
    push_two_digits, starts_with, starts_with_spec, str_eq, to_lowercase, zero_padded_spec,
};

verus! {

/// What kind of failure an error report describes, with a fix to try.
pub struct ErrorClassification {
    pub summary: &'static str,
    pub hint: &'static str,
}

/// Which class of failure a lower-cased error text describes: expired
/// credentials, missing credentials, denied access, or anything else.
pub open spec fn error_class(text: Seq<char>) -> int {
    if contains_seq(text, "refresh token has expired"@) || contains_seq(
        text,
        "session has expired"@,
    ) || contains_seq(text, "failed to refresh cached login token"@) {
        0
    } else if contains_seq(text, "no credentials"@) || contains_seq(
        text,
        "failed to load credentials"@,
    ) {
        1
    } else if contains_seq(text, "accessdenied"@) || contains_seq(text, "access denied"@) {
        2
    } else {
        3
    }
}

/// The summary of each error class.
pub open spec fn class_summary(class: int) -> Seq<char> {
    if class == 0 {
        "AWS credentials are expired"@
    } else if class == 1 {
        "AWS credentials are not available"@
    } else if class == 2 {
        "AWS API access was denied"@
    } else {
        "command failed"@
    }
}

/// The hint of each error class.
pub open spec fn class_hint(class: int) -> Seq<char> {
    if class == 0 {
        "refresh AWS credentials and retry; for AWS SSO run `aws sso login`, or pass `--profile <name>` for a valid profile"@
    } else if class == 1 {
        "configure AWS credentials, set AWS_PROFILE, or pass `--profile <name>`"@
    } else if class == 2 {
        "check the selected AWS profile and IAM permissions for the requested scan"@
    } else {
        "rerun with a valid input path, database, or AWS profile depending on the command context"@
    }
}

/// Classifies a lower-cased error text.
pub fn classify_error(text: &str) -> (c: ErrorClassification)
    ensures
        c.summary@ == class_summary(error_class(text@)),
        c.hint@ == class_hint(error_class(text@)),
{
    if contains_str(text, "refresh token has expired") || contains_str(text, "session has expired")
        || contains_str(text, "failed to refresh cached login token") {
        return ErrorClassification {
            summary: "AWS credentials are expired",
            hint: "refresh AWS credentials and retry; for AWS SSO run `aws sso login`, or pass `--profile <name>` for a valid profile",
        };
    }
    if contains_str(text, "no credentials") || contains_str(text, "failed to load credentials") {
        return ErrorClassification {
            summary: "AWS credentials are not available",
            hint: "configure AWS credentials, set AWS_PROFILE, or pass `--profile <name>`",
        };
    }
    if contains_str(text, "accessdenied") || contains_str(text, "access denied") {
        return ErrorClassification {
            summary: "AWS API access was denied",
            hint: "check the selected AWS profile and IAM permissions for the requested scan",
        };
    }
    ErrorClassification {
        summary: "command failed",
        hint: "rerun with a valid input path, database, or AWS profile depending on the command context",
    }
}

/// Whether a cause names the operation that failed.
pub open spec fn is_context_spec(cause: Seq<char>) -> bool {
    ||| starts_with_spec(cause, "calling "@)
    ||| starts_with_spec(cause, "opening "@)
    ||| starts_with_spec(cause, "reading "@)
    ||| starts_with_spec(cause, "parsing "@)
    ||| starts_with_spec(cause, "binding "@)
    ||| starts_with_spec(cause, "loading "@)
}

fn is_context(cause: &str) -> (r: bool)
    ensures
        r == is_context_spec(cause@),
{
    starts_with(cause, "calling ") || starts_with(cause, "opening ") || starts_with(
        cause,
        "reading ",
    ) || starts_with(cause, "parsing ") || starts_with(cause, "binding ") || starts_with(
        cause,
        "loading ",
    )
}

/// The first cause of `chain` that names the failed operation.
pub open spec fn operation_context_spec(chain: Seq<Seq<char>>) -> Option<Seq<char>>
    decreases chain.len(),
{
    if chain.len() == 0 {
        None
    } else if is_context_spec(chain[0]) {
        Some(chain[0])
    } else {
        operation_context_spec(chain.drop_first())
    }
}

proof fn lemma_operation_context_at(chain: Seq<Seq<char>>, k: int)
    requires
        0 <= k <= chain.len(),
        forall|j: int| 0 <= j < k ==> !is_context_spec(chain[j]),
    ensures
        operation_context_spec(chain) == (if k < chain.len() && is_context_spec(chain[k]) {
            Some(chain[k])
        } else {
            operation_context_spec(chain.subrange(k, chain.len() as int))
        }),
    decreases k,
{
    if k == 0 {
        assert(chain.subrange(0, chain.len() as int) =~= chain);
    } else {
        let t = chain.drop_first();
        assert forall|j: int| 0 <= j < k - 1 implies !is_context_spec(t[j]) by {
            assert(t[j] == chain[j + 1]);
        }
        lemma_operation_context_at(t, k - 1);
        assert(t.subrange(k - 1, t.len() as int) =~= chain.subrange(k, chain.len() as int));
        if k < chain.len() {
            assert(t[k - 1] == chain[k]);
        }
    }
}

/// The first cause of `chain` that names the failed operation.
pub fn operation_context(chain: &Vec<String>) -> (r: Option<String>)
    ensures
        match r {
            Some(c) => operation_context_spec(chain.deep_view()) == Some(c@),
            None => operation_context_spec(chain.deep_view()) is None,
        },
{
    let ghost dv = chain.deep_view();
    let mut i: usize = 0;
    while i < chain.len()
        invariant
            i <= chain@.len(),
            dv == chain.deep_view(),
            forall|j: int| 0 <= j < i ==> !is_context_spec(dv[j]),
        decreases chain@.len() - i,
    {
        if is_context(chain[i].as_str()) {
            proof {
                lemma_operation_context_at(dv, i as int);
            }
            return Some(chain[i].clone());
        }
        i += 1;
    }
    proof {
        lemma_operation_context_at(dv, i as int);
        assert(dv.subrange(i as int, dv.len() as int) =~= Seq::<Seq<char>>::empty());
    }
    None
}

/// Whether a cause adds nothing to a report.
pub open spec fn is_low_signal_spec(cause: Seq<char>) -> bool {
    ||| cause == "dispatch failure"@
    ||| cause == "other"@
    ||| cause == "an error occurred while loading credentials"@
    ||| starts_with_spec(cause, "AccessDeniedException: AccessDeniedException"@)
}

/// Whether a cause adds nothing to a report.
pub fn is_low_signal_detail(cause: &str) -> (r: bool)
    ensures
        r == is_low_signal_spec(cause@),
{
    str_eq(cause, "dispatch failure") || str_eq(cause, "other") || str_eq(
        cause,
        "an error occurred while loading credentials",
    ) || starts_with(cause, "AccessDeniedException: AccessDeniedException")
}

/// The causes of `chain` in order, without low-signal causes and repeats.
pub open spec fn dedup_details_spec(chain: Seq<Seq<char>>) -> Seq<Seq<char>>
    decreases chain.len(),
{
    if chain.len() == 0 {
        Seq::empty()
    } else {
        let prev = dedup_details_spec(chain.drop_last());
        if is_low_signal_spec(chain.last()) || prev.contains(chain.last()) {
            prev
        } else {
            prev.push(chain.last())
        }
    }
}

fn contains_string(list: &Vec<String>, s: &String) -> (r: bool)
    ensures
        r == list.deep_view().contains(s@),
{
    let ghost dv = list.deep_view();
    let mut i: usize = 0;
    while i < list.len()
        invariant
            i <= list@.len(),
            dv == list.deep_view(),
            forall|j: int| 0 <= j < i ==> dv[j] != s@,
        decreases list@.len() - i,
    {
        if str_eq(list[i].as_str(), s.as_str()) {
            assert(dv[i as int] == s@);
            return true;
        }
        i += 1;
    }
    false
}

/// The causes of `chain` in order, without low-signal causes and repeats.
pub fn dedup_details(chain: &Vec<String>) -> (r: Vec<String>)
    ensures
        r.deep_view() == dedup_details_spec(chain.deep_view()),
{
    let ghost dv = chain.deep_view();
    let mut details: Vec<String> = Vec::new();
    let mut i: usize = 0;
    while i < chain.len()
        invariant
            i <= chain@.len(),
            dv == chain.deep_view(),
            details.deep_view() == dedup_details_spec(dv.take(i as int)),
        decreases chain@.len() - i,
    {
        assert(dv.take(i + 1).drop_last() =~= dv.take(i as int));
        assert(dv.take(i + 1).last() == chain@[i as int]@);
        let cause = &chain[i];
        if !is_low_signal_detail(cause.as_str()) && !contains_string(&details, cause) {
            let ghost before = details.deep_view();
            details.push(cause.clone());
            assert(details.deep_view() =~= before.push(cause@));
        }
        i += 1;
    }
    assert(dv.take(i as int) =~= dv);
    details
}

/// `s` without the elements equal to `x`.
pub open spec fn without(s: Seq<Seq<char>>, x: Option<Seq<char>>) -> Seq<Seq<char>>
    decreases s.len(),
{
    if s.len() == 0 {
        Seq::empty()
    } else {
        let prev = without(s.drop_last(), x);
        if x == Some(s.last()) {
            prev
        } else {
            prev.push(s.last())
        }
    }
}

/// The first lines of an error report: the summary, the failed operation
/// when one is named, and the hint.
pub open spec fn report_head(chain: Seq<Seq<char>>) -> Seq<Seq<char>> {
    let class = error_class(lowercase_text(join_spec(chain, seq!['\n'])));
    let head = seq!["cloudmapper error: "@ + class_summary(class)];
    let with_context = match operation_context_spec(chain) {
        Some(c) => head.push("context: "@ + c),
        None => head,
    };
    with_context.push("hint: "@ + class_hint(class))
}

/// The lines of an error report for the error whose causes, outermost first,
/// are `chain`.
pub open spec fn report_lines(chain: Seq<Seq<char>>) -> Seq<Seq<char>> {
    let context = operation_context_spec(chain);
    let with_hint = report_head(chain);
    let details = without(dedup_details_spec(chain), context);
    if details.len() == 0 {
        with_hint
    } else {
        let shown = if details.len() > 4 {
            details.take(4)
        } else {
            details
        };
        with_hint.push("details:"@) + Seq::new(shown.len(), |i: int| "  - "@ + shown[i])
    }
}

fn concat_line(prefix: &str, body: &str) -> (r: String)
    ensures
        r@ == prefix@ + body@,
{
    let mut s = prefix.to_owned();
    s.append(body);
    s
}

/// Formats an error report: the failure class and its hint, the operation
/// that failed, and up to four distinct details.
pub fn format_cli_error(chain: &Vec<String>) -> (r: String)
    ensures
        r@ == join_spec(report_lines(chain.deep_view()), seq!['\n']),
{
    let ghost dv = chain.deep_view();
    let joined = join(chain, "\n");
    proof {
        reveal_strlit("\n");
        assert("\n"@ =~= seq!['\n']);
    }
    let text = to_lowercase(joined.as_str());
    let context = operation_context(chain);
    let classification = classify_error(text.as_str());
    let mut lines: Vec<String> = Vec::new();
    lines.push(concat_line("cloudmapper error: ", classification.summary));
    match &context {
        Some(c) => {
            lines.push(concat_line("context: ", c.as_str()));
        },
        None => {},
    }
    lines.push(concat_line("hint: ", classification.hint));
    assert(lines.deep_view() =~= report_head(dv));
    let ghost ctx = context.deep_view();
    let deduped = dedup_details(chain);
    let ghost ddv = deduped.deep_view();
    let mut details: Vec<String> = Vec::new();
    let mut i: usize = 0;
    while i < deduped.len()
        invariant
            i <= deduped@.len(),
            ddv == deduped.deep_view(),
            details.deep_view() == without(ddv.take(i as int), ctx),
            ctx == context.deep_view(),
        decreases deduped@.len() - i,
    {
        assert(ddv.take(i + 1).drop_last() =~= ddv.take(i as int));
        assert(ddv.take(i + 1).last() == deduped@[i as int]@);
        let keep = match &context {
            Some(c) => !str_eq(deduped[i].as_str(), c.as_str()),
            None => true,
        };
        if keep {
            let ghost before = details.deep_view();
            details.push(deduped[i].clone());
            assert(details.deep_view() =~= before.push(deduped@[i as int]@));
        }
        i += 1;
    }
    assert(ddv.take(i as int) =~= ddv);
    let ghost base = lines.deep_view();
    if details.len() > 0 {
        lines.push("details:".to_owned());
        let ghost with_header = lines.deep_view();
        let mut k: usize = 0;
        while k < details.len() && k < 4
            invariant
                k <= details@.len(),
                k <= 4,
                lines.deep_view().len() == with_header.len() + k,
                lines.deep_view().take(with_header.len() as int) == with_header,
                forall|j: int|
                    0 <= j < k ==> #[trigger] lines.deep_view()[with_header.len() + j] == "  - "@
                        + details@[j]@,
            decreases details@.len() - k,
        {
            let ghost before = lines.deep_view();
            lines.push(concat_line("  - ", details[k].as_str()));
            assert(lines.deep_view().take(with_header.len() as int) =~= before.take(
                with_header.len() as int,
            ));
            assert forall|j: int| 0 <= j < k implies #[trigger] lines.deep_view()[with_header.len() + j]
                == before[with_header.len() + j] by {}
            k += 1;
        }
        proof {
            let dd = details.deep_view();
            let shown = if dd.len() > 4 {
                dd.take(4)
            } else {
                dd
            };
            let hl = with_header.len() as int;
            let expected = with_header + Seq::new(shown.len(), |j: int| "  - "@ + shown[j]);
            assert(k == shown.len());
            assert forall|i: int| 0 <= i < lines.deep_view().len() implies lines.deep_view()[i]
                == expected[i] by {
                if i < hl {
                    assert(lines.deep_view().take(hl)[i] == with_header[i]);
                } else {
                    let j = i - hl;
                    assert(lines.deep_view()[hl + j] == "  - "@ + details@[j]@);
                }
            }
            assert(lines.deep_view() =~= expected);
        }
    }
    proof {
        assert(context.deep_view() == operation_context_spec(dv));
        assert(details.deep_view() == without(dedup_details_spec(dv), operation_context_spec(dv)));
        assert(lines.deep_view() == report_lines(dv));
    }
    join(&lines, "\n")
}

/// The progress line: the frame, label, stage and elapsed time, with ANSI
/// styling when `color` is set.
pub open spec fn render_line_spec(
    frame: Seq<char>,
    label: Seq<char>,
    stage: Seq<char>,
    elapsed: Seq<char>,
    color: bool,
) -> Seq<char> {
    if !color {
        frame + seq![' '] + label + ": "@ + stage + seq![' '] + elapsed
    } else {
        "\x1b[36m"@ + frame + "\x1b[0m \x1b[1m"@ + label + "\x1b[0m: \x1b[2m"@ + stage
            + "\x1b[0m \x1b[2m"@ + elapsed + "\x1b[0m"@
    }
}

/// Renders the progress line.
pub fn render_line(frame: &str, label: &str, stage: &str, elapsed: String, color: bool) -> (r:
    String)
    ensures
        r@ == render_line_spec(frame@, label@, stage@, elapsed@, color),
{
    if !color {
        let mut out = frame.to_owned();
        crate::text::push_char(&mut out, ' ');
        out.append(label);
        out.append(": ");
        out.append(stage);
        crate::text::push_char(&mut out, ' ');
        out.append(elapsed.as_str());
        assert(out@ =~= render_line_spec(frame@, label@, stage@, elapsed@, color));
        return out;
    }
    let mut out = "\x1b[36m".to_owned();
    out.append(frame);
    out.append("\x1b[0m \x1b[1m");
    out.append(label);
    out.append("\x1b[0m: \x1b[2m");
    out.append(stage);
    out.append("\x1b[0m \x1b[2m");
    out.append(elapsed.as_str());
    out.append("\x1b[0m");
    assert(out@ =~= render_line_spec(frame@, label@, stage@, elapsed@, color));
    out
}

/// Elapsed time text: whole minutes and two-digit seconds from a minute on,
/// else seconds and tenths.
pub open spec fn elapsed_spec(seconds: nat, subsec_millis: nat) -> Seq<char> {
    if seconds >= 60 {
        decimal_spec(seconds / 60) + seq!['m'] + zero_padded_spec(seconds % 60, 2) + seq!['s']
    } else {
        decimal_spec(seconds) + seq!['.'] + decimal_spec(subsec_millis / 100) + seq!['s']
    }
}

/// Formats an elapsed time given in whole seconds and the milliseconds past them.
pub fn elapsed(seconds: u64, subsec_millis: u32) -> (r: String)
    ensures
        r@ == elapsed_spec(seconds as nat, subsec_millis as nat),
{
    let mut out = String::new();
    if seconds >= 60 {
        push_decimal(&mut out, seconds / 60);
        crate::text::push_char(&mut out, 'm');
        push_two_digits(&mut out, seconds % 60);
        crate::text::push_char(&mut out, 's');
    } else {
        push_decimal(&mut out, seconds);
        crate::text::push_char(&mut out, '.');
        push_decimal(&mut out, (subsec_millis / 100) as u64);
        crate::text::push_char(&mut out, 's');
    }
    assert(out@ =~= elapsed_spec(seconds as nat, subsec_millis as nat));
    out
}

} // verus!
