//! What the panels of the terminal interface show: their lines as styled
//! pieces of text, the colours given as roles that the theme resolves when
//! the lines are drawn.
use vstd::prelude::*;
use crate::health::{ConstraintUsage, HealthReport, MissingFieldsIssue, SdkConsistencyResult, VersionDriftIssue};
use crate::tui::{ActivePanel, AppState, CommandOpts, CommandRow, OptionRow, PackageRow, rows_spec};
use crate::app::{App, derefs, has_filter_spec, picked};
use vstd::utf8::encode_utf8;
use crate::text::{append_str, digits, join, join_strings, owned, u64_to_string, views};

verus! {

/// The colour role of a piece of text.
#[derive(Debug, Clone, Copy, PartialEq, Eq, Structural)]
pub enum Tone {
    /// The terminal's own colour.
    Default,
    Accent,
    Text,
    Muted,
    Secondary,
    Header,
    Success,
    Error,
    /// Fixed red, whatever the theme.
    Red,
    /// Fixed green, whatever the theme.
    Green,
    /// Fixed dark grey, whatever the theme.
    DarkGray,
    /// The colour at this place of the palette of package colours.
    Palette(usize),
}

/// A piece of text in one style.
#[derive(Debug, Clone)]
pub struct Span {
    pub text: String,
    pub tone: Tone,
    pub bold: bool,
}

/// A piece of text as text, colour role and weight.
pub open spec fn span_view(s: Span) -> (Seq<char>, Tone, bool) {
    (s.text@, s.tone, s.bold)
}

pub open spec fn line_view(l: Seq<Span>) -> Seq<(Seq<char>, Tone, bool)> {
    l.map_values(|s: Span| span_view(s))
}

pub open spec fn lines_view(v: Seq<Vec<Span>>) -> Seq<Seq<(Seq<char>, Tone, bool)>> {
    v.map_values(|l: Vec<Span>| line_view(l@))
}

/// A line of one piece.
pub open spec fn one(t: Seq<char>, tone: Tone, bold: bool) -> Seq<(Seq<char>, Tone, bool)> {
    seq![(t, tone, bold)]
}

fn span(text: String, tone: Tone, bold: bool) -> (r: Span)
    ensures
        span_view(r) == (text@, tone, bold),
{
    Span { text, tone, bold }
}

fn one_line(text: String, tone: Tone, bold: bool) -> (r: Vec<Span>)
    ensures
        line_view(r@) == one(text@, tone, bold),
{
    let mut l: Vec<Span> = Vec::new();
    l.push(span(text, tone, bold));
    assert(line_view(l@) =~= one(text@, tone, bold));
    l
}

fn blank_line() -> (r: Vec<Span>)
    ensures
        r@.len() == 0,
        line_view(r@) == Seq::<(Seq<char>, Tone, bool)>::empty(),
{
    let l: Vec<Span> = Vec::new();
    assert(line_view(l@) =~= Seq::<(Seq<char>, Tone, bool)>::empty());
    l
}

fn text_of(v: &Vec<char>) -> (r: String)
    ensures
        r@ == v@,
{
    crate::text::from_chars(v.as_slice())
}

// ---------------------------------------------------------------------------
// The health report
// ---------------------------------------------------------------------------

/// A constraint and the packages that use it, after an indent.
pub open spec fn usage_line(indent: Seq<char>, u: ConstraintUsage) -> Seq<(Seq<char>, Tone, bool)> {
    seq![
        (indent, Tone::Default, false),
        (u.constraint@, Tone::Accent, false),
        ("  used by: "@ + join(views(u.packages@), ", "@), Tone::Muted, false),
    ]
}

pub open spec fn usage_lines(indent: Seq<char>, us: Seq<ConstraintUsage>) -> Seq<Seq<(Seq<char>, Tone, bool)>> {
    us.map_values(|u: ConstraintUsage| usage_line(indent, u))
}

fn usage_line_exec(indent: &str, u: &ConstraintUsage) -> (r: Vec<Span>)
    ensures
        line_view(r@) == usage_line(indent@, *u),
{
    let mut l: Vec<Span> = Vec::new();
    l.push(span(owned(indent), Tone::Default, false));
    l.push(span(owned(u.constraint.as_str()), Tone::Accent, false));
    let used = join_strings(&u.packages, ", ");
    let mut t: Vec<char> = Vec::new();
    append_str(&mut t, "  used by: ");
    append_str(&mut t, used.as_str());
    l.push(span(crate::text::from_chars(t.as_slice()), Tone::Muted, false));
    assert(line_view(l@) =~= usage_line(indent@, *u));
    l
}

fn push_usage_lines(out: &mut Vec<Vec<Span>>, indent: &str, us: &Vec<ConstraintUsage>)
    ensures
        lines_view(final(out)@) == lines_view(old(out)@) + usage_lines(indent@, us@),
{
    let ghost start = lines_view(out@);
    let mut i: usize = 0;
    while i < us.len()
        invariant
            i <= us@.len(),
            lines_view(out@) == start + usage_lines(indent@, us@.take(i as int)),
        decreases us@.len() - i,
    {
        let l = usage_line_exec(indent, &us[i]);
        let ghost before = lines_view(out@);
        out.push(l);
        assert(lines_view(out@) =~= before.push(line_view(l@)));
        assert(usage_lines(indent@, us@.take(i + 1)) =~= usage_lines(indent@, us@.take(i as int)).push(
            usage_line(indent@, us@[i as int]),
        ));
        i += 1;
    }
    assert(us@.take(us@.len() as int) =~= us@);
}

/// The lines of each drifting dependency: its name and number of
/// constraints, each constraint with its packages, and a blank line.
pub open spec fn drift_issue_lines(ds: Seq<VersionDriftIssue>) -> Seq<Seq<(Seq<char>, Tone, bool)>>
    decreases ds.len(),
{
    if ds.len() == 0 {
        seq![]
    } else {
        let d = ds.last();
        drift_issue_lines(ds.drop_last()) + seq![
            one(
                "  "@ + d.dependency@ + " ("@ + digits(d.constraints@.len()) + " constraints):"@,
                Tone::Text,
                true,
            ),
        ] + usage_lines("    "@, d.constraints@) + seq![Seq::empty()]
    }
}

/// The version drift tab.
pub open spec fn version_drift_spec(r: Option<Vec<VersionDriftIssue>>) -> Seq<Seq<(Seq<char>, Tone, bool)>> {
    match r {
        None => seq![one("Version drift check was not enabled."@, Tone::Muted, false)],
        Some(ds) => if ds@.len() == 0 {
            seq![one("No version drift detected."@, Tone::Success, false)]
        } else {
            seq![one(digits(ds@.len()) + " dependencies with version drift:"@, Tone::Header, true), Seq::empty()]
                + drift_issue_lines(ds@)
        },
    }
}

/// The lines of the version drift tab of a health report.
pub fn version_drift_lines(report: &HealthReport) -> (r: Vec<Vec<Span>>)
    ensures
        lines_view(r@) == version_drift_spec(report.version_drift),
{
    let mut out: Vec<Vec<Span>> = Vec::new();
    match &report.version_drift {
        None => {
            out.push(one_line(owned("Version drift check was not enabled."), Tone::Muted, false));
        },
        Some(ds) => {
            if ds.len() == 0 {
                out.push(one_line(owned("No version drift detected."), Tone::Success, false));
            } else {
                let n = u64_to_string(ds.len() as u64);
                let mut t: Vec<char> = Vec::new();
                append_str(&mut t, n.as_str());
                append_str(&mut t, " dependencies with version drift:");
                out.push(one_line(text_of(&t), Tone::Header, true));
                out.push(blank_line());
                let ghost head = lines_view(out@);
                let mut i: usize = 0;
                assert(ds@.take(0) =~= Seq::<VersionDriftIssue>::empty());
                while i < ds.len()
                    invariant
                        i <= ds@.len(),
                        lines_view(out@) == head + drift_issue_lines(ds@.take(i as int)),
                    decreases ds@.len() - i,
                {
                    let d = &ds[i];
                    let c = u64_to_string(d.constraints.len() as u64);
                    let mut t: Vec<char> = Vec::new();
                    append_str(&mut t, "  ");
                    append_str(&mut t, d.dependency.as_str());
                    append_str(&mut t, " (");
                    append_str(&mut t, c.as_str());
                    append_str(&mut t, " constraints):");
                    let ghost l0 = lines_view(out@);
                    let h = one_line(text_of(&t), Tone::Text, true);
                    let ghost hv = line_view(h@);
                    out.push(h);
                    assert(lines_view(out@) =~= l0.push(hv));
                    let ghost l1 = lines_view(out@);
                    push_usage_lines(&mut out, "    ", &d.constraints);
                    let ghost l2 = lines_view(out@);
                    let b = blank_line();
                    out.push(b);
                    assert(lines_view(out@) =~= l2.push(Seq::empty()));
                    proof {
                        let dd = ds@[i as int];
                        assert(ds@.take(i + 1).drop_last() =~= ds@.take(i as int));
                        assert(ds@.take(i + 1).last() == dd);
                        assert(hv == one(
                            "  "@ + dd.dependency@ + " ("@ + digits(dd.constraints@.len()) + " constraints):"@,
                            Tone::Text,
                            true,
                        ));
                        assert(lines_view(out@) =~= head + drift_issue_lines(ds@.take(i + 1)));
                    }
                    i += 1;
                }
                assert(ds@.take(ds@.len() as int) =~= ds@);
            }
        },
    }
    out
}

/// A package and the fields it lacks.
pub open spec fn missing_line(i: MissingFieldsIssue) -> Seq<(Seq<char>, Tone, bool)> {
    seq![("  "@ + i.package@ + ": "@, Tone::Text, true), (join(views(i.missing@), ", "@), Tone::Error, false)]
}

/// The missing fields tab.
pub open spec fn missing_fields_spec(r: Option<Vec<MissingFieldsIssue>>) -> Seq<Seq<(Seq<char>, Tone, bool)>> {
    match r {
        None => seq![one("Missing fields check was not enabled."@, Tone::Muted, false)],
        Some(is) => if is@.len() == 0 {
            seq![one("All packages have required fields."@, Tone::Success, false)]
        } else {
            seq![one(digits(is@.len()) + " packages with missing fields:"@, Tone::Header, true), Seq::empty()]
                + is@.map_values(|i: MissingFieldsIssue| missing_line(i))
        },
    }
}

/// The lines of the missing fields tab of a health report.
pub fn missing_fields_lines(report: &HealthReport) -> (r: Vec<Vec<Span>>)
    ensures
        lines_view(r@) == missing_fields_spec(report.missing_fields),
{
    let mut out: Vec<Vec<Span>> = Vec::new();
    match &report.missing_fields {
        None => {
            out.push(one_line(owned("Missing fields check was not enabled."), Tone::Muted, false));
        },
        Some(is) => {
            if is.len() == 0 {
                out.push(one_line(owned("All packages have required fields."), Tone::Success, false));
            } else {
                let n = u64_to_string(is.len() as u64);
                let mut t: Vec<char> = Vec::new();
                append_str(&mut t, n.as_str());
                append_str(&mut t, " packages with missing fields:");
                out.push(one_line(text_of(&t), Tone::Header, true));
                out.push(blank_line());
                let ghost head = lines_view(out@);
                let mut i: usize = 0;
                while i < is.len()
                    invariant
                        i <= is@.len(),
                        lines_view(out@) == head + is@.take(i as int).map_values(|x: MissingFieldsIssue| missing_line(x)),
                    decreases is@.len() - i,
                {
                    let issue = &is[i];
                    let mut a: Vec<char> = Vec::new();
                    append_str(&mut a, "  ");
                    append_str(&mut a, issue.package.as_str());
                    append_str(&mut a, ": ");
                    let mut l: Vec<Span> = Vec::new();
                    l.push(span(text_of(&a), Tone::Text, true));
                    l.push(span(join_strings(&issue.missing, ", "), Tone::Error, false));
                    assert(line_view(l@) =~= missing_line(is@[i as int]));
                    let ghost before = lines_view(out@);
                    out.push(l);
                    proof {
                        assert(lines_view(out@) =~= before.push(missing_line(is@[i as int])));
                        assert(is@.take(i + 1).map_values(|x: MissingFieldsIssue| missing_line(x)) =~= is@.take(
                            i as int,
                        ).map_values(|x: MissingFieldsIssue| missing_line(x)).push(missing_line(is@[i as int])));
                    }
                    i += 1;
                }
                assert(is@.take(is@.len() as int) =~= is@);
            }
        },
    }
    out
}

/// The SDK consistency tab: packages without a Dart SDK constraint, then
/// the Dart and the Flutter SDK constraints in use where they differ.
pub open spec fn sdk_consistency_spec(r: Option<SdkConsistencyResult>) -> Seq<Seq<(Seq<char>, Tone, bool)>> {
    match r {
        None => seq![one("SDK consistency check was not enabled."@, Tone::Muted, false)],
        Some(sdk) => if sdk.missing_sdk@.len() == 0 && sdk.dart_sdk_drift@.len() == 0 && sdk.flutter_sdk_drift@.len() == 0 {
            seq![one("SDK constraints are consistent."@, Tone::Success, false)]
        } else {
            (if sdk.missing_sdk@.len() > 0 {
                seq![one(digits(sdk.missing_sdk@.len()) + " packages missing SDK constraint:"@, Tone::Header, true)]
                    + views(sdk.missing_sdk@).map_values(|n: Seq<char>| one("  "@ + n, Tone::Error, false))
                    + seq![Seq::empty()]
            } else {
                seq![]
            }) + (if sdk.dart_sdk_drift@.len() > 0 {
                seq![one("Dart SDK constraint drift:"@, Tone::Header, true)] + usage_lines("  "@, sdk.dart_sdk_drift@)
                    + seq![Seq::empty()]
            } else {
                seq![]
            }) + (if sdk.flutter_sdk_drift@.len() > 0 {
                seq![one("Flutter SDK constraint drift:"@, Tone::Header, true)] + usage_lines(
                    "  "@,
                    sdk.flutter_sdk_drift@,
                )
            } else {
                seq![]
            })
        },
    }
}

fn push_name_lines(out: &mut Vec<Vec<Span>>, names: &Vec<String>)
    ensures
        lines_view(final(out)@) == lines_view(old(out)@) + views(names@).map_values(
            |n: Seq<char>| one("  "@ + n, Tone::Error, false),
        ),
{
    let ghost start = lines_view(out@);
    let mut i: usize = 0;
    while i < names.len()
        invariant
            i <= names@.len(),
            lines_view(out@) == start + views(names@.take(i as int)).map_values(
                |n: Seq<char>| one("  "@ + n, Tone::Error, false),
            ),
        decreases names@.len() - i,
    {
        let mut t: Vec<char> = Vec::new();
        append_str(&mut t, "  ");
        append_str(&mut t, names[i].as_str());
        let l = one_line(text_of(&t), Tone::Error, false);
        let ghost before = lines_view(out@);
        out.push(l);
        proof {
            assert(lines_view(out@) =~= before.push(one("  "@ + names@[i as int]@, Tone::Error, false)));
            assert(views(names@.take(i + 1)).map_values(|n: Seq<char>| one("  "@ + n, Tone::Error, false))
                =~= views(names@.take(i as int)).map_values(|n: Seq<char>| one("  "@ + n, Tone::Error, false)).push(
                one("  "@ + names@[i as int]@, Tone::Error, false),
            ));
        }
        i += 1;
    }
    assert(names@.take(names@.len() as int) =~= names@);
}

/// The lines of the SDK consistency tab of a health report.
pub fn sdk_consistency_lines(report: &HealthReport) -> (r: Vec<Vec<Span>>)
    ensures
        lines_view(r@) == sdk_consistency_spec(report.sdk_consistency),
{
    let mut out: Vec<Vec<Span>> = Vec::new();
    match &report.sdk_consistency {
        None => {
            out.push(one_line(owned("SDK consistency check was not enabled."), Tone::Muted, false));
        },
        Some(sdk) => {
            if sdk.missing_sdk.len() == 0 && sdk.dart_sdk_drift.len() == 0 && sdk.flutter_sdk_drift.len() == 0 {
                out.push(one_line(owned("SDK constraints are consistent."), Tone::Success, false));
            } else {
                let ghost empty_lines = lines_view(out@);
                assert(empty_lines =~= Seq::<Seq<(Seq<char>, Tone, bool)>>::empty());
                if sdk.missing_sdk.len() > 0 {
                    let n = u64_to_string(sdk.missing_sdk.len() as u64);
                    let mut t: Vec<char> = Vec::new();
                    append_str(&mut t, n.as_str());
                    append_str(&mut t, " packages missing SDK constraint:");
                    let h = one_line(text_of(&t), Tone::Header, true);
                    let ghost hv = line_view(h@);
                    out.push(h);
                    assert(lines_view(out@) =~= seq![hv]);
                    push_name_lines(&mut out, &sdk.missing_sdk);
                    let ghost m = lines_view(out@);
                    out.push(blank_line());
                    assert(lines_view(out@) =~= m.push(Seq::empty()));
                }
                let ghost part1 = lines_view(out@);
                if sdk.dart_sdk_drift.len() > 0 {
                    let h = one_line(owned("Dart SDK constraint drift:"), Tone::Header, true);
                    let ghost hv = line_view(h@);
                    out.push(h);
                    assert(lines_view(out@) =~= part1.push(hv));
                    push_usage_lines(&mut out, "  ", &sdk.dart_sdk_drift);
                    let ghost m = lines_view(out@);
                    out.push(blank_line());
                    assert(lines_view(out@) =~= m.push(Seq::empty()));
                }
                let ghost part2 = lines_view(out@);
                if sdk.flutter_sdk_drift.len() > 0 {
                    let h = one_line(owned("Flutter SDK constraint drift:"), Tone::Header, true);
                    let ghost hv = line_view(h@);
                    out.push(h);
                    assert(lines_view(out@) =~= part2.push(hv));
                    push_usage_lines(&mut out, "  ", &sdk.flutter_sdk_drift);
                }
                proof {
                    let s = *sdk;
                    let a = if s.missing_sdk@.len() > 0 {
                        seq![one(digits(s.missing_sdk@.len()) + " packages missing SDK constraint:"@, Tone::Header, true)]
                            + views(s.missing_sdk@).map_values(|n: Seq<char>| one("  "@ + n, Tone::Error, false))
                            + seq![Seq::empty()]
                    } else {
                        seq![]
                    };
                    let b = if s.dart_sdk_drift@.len() > 0 {
                        seq![one("Dart SDK constraint drift:"@, Tone::Header, true)] + usage_lines("  "@, s.dart_sdk_drift@)
                            + seq![Seq::empty()]
                    } else {
                        seq![]
                    };
                    let c = if s.flutter_sdk_drift@.len() > 0 {
                        seq![one("Flutter SDK constraint drift:"@, Tone::Header, true)] + usage_lines(
                            "  "@,
                            s.flutter_sdk_drift@,
                        )
                    } else {
                        seq![]
                    };
                    assert(part1 =~= a);
                    assert(part2 =~= a + b);
                    assert(lines_view(out@) =~= a + b + c);
                }
            }
        },
    }
    out
}

/// The labels of the health tabs.
pub open spec fn tab_label(i: int) -> Seq<char> {
    if i == 0 {
        "Version Drift"@
    } else if i == 1 {
        "Missing Fields"@
    } else {
        "SDK Consistency"@
    }
}

/// The tab bar: the three labels between bars, the active one in the
/// accent colour and bold (underlined when drawn).
pub open spec fn tab_bar_spec(active: int) -> Seq<(Seq<char>, Tone, bool)> {
    seq![
        (tab_label(0), if active == 0 { Tone::Accent } else { Tone::Muted }, active == 0),
        (" | "@, Tone::Muted, false),
        (tab_label(1), if active == 1 { Tone::Accent } else { Tone::Muted }, active == 1),
        (" | "@, Tone::Muted, false),
        (tab_label(2), if active == 2 { Tone::Accent } else { Tone::Muted }, active == 2),
    ]
}

/// The health dashboard of a finished health run.
pub struct HealthPanel {
    pub tabs: Vec<Span>,
    pub title: String,
    pub lines: Vec<Vec<Span>>,
}

fn tab_span(label: &str, on: bool) -> (r: Span)
    ensures
        span_view(r) == (label@, if on { Tone::Accent } else { Tone::Muted }, on),
{
    span(owned(label), if on { Tone::Accent } else { Tone::Muted }, on)
}

/// The health dashboard: nothing without a report; else the tab bar and
/// the tab that `tab` selects (0 version drift, 1 missing fields, the SDK
/// consistency otherwise).
pub fn health_panel(report: &Option<HealthReport>, tab: usize) -> (r: Option<HealthPanel>)
    ensures
        match *report {
            None => r is None,
            Some(rep) => r matches Some(h) && {
                &&& line_view(h.tabs@) == tab_bar_spec(tab as int)
                &&& h.title@ == " "@ + tab_label(tab as int) + " "@
                &&& lines_view(h.lines@) == (if tab == 0 {
                    version_drift_spec(rep.version_drift)
                } else if tab == 1 {
                    missing_fields_spec(rep.missing_fields)
                } else {
                    sdk_consistency_spec(rep.sdk_consistency)
                })
            },
        },
{
    let rep = match report {
        Some(r) => r,
        None => return None,
    };
    let mut tabs: Vec<Span> = Vec::new();
    tabs.push(tab_span("Version Drift", tab == 0));
    tabs.push(span(owned(" | "), Tone::Muted, false));
    tabs.push(tab_span("Missing Fields", tab == 1));
    tabs.push(span(owned(" | "), Tone::Muted, false));
    tabs.push(tab_span("SDK Consistency", tab == 2));
    assert(line_view(tabs@) =~= tab_bar_spec(tab as int));
    let (title, lines) = if tab == 0 {
        (owned(" Version Drift "), version_drift_lines(rep))
    } else if tab == 1 {
        (owned(" Missing Fields "), missing_fields_lines(rep))
    } else {
        (owned(" SDK Consistency "), sdk_consistency_lines(rep))
    };
    proof {
        reveal_strlit(" Version Drift ");
        reveal_strlit(" Missing Fields ");
        reveal_strlit(" SDK Consistency ");
        reveal_strlit("Version Drift");
        reveal_strlit("Missing Fields");
        reveal_strlit("SDK Consistency");
        reveal_strlit(" ");
    }
    Some(HealthPanel { tabs, title, lines })
}

// ---------------------------------------------------------------------------
// The options overlay
// ---------------------------------------------------------------------------

/// The cursor before a row.
pub open spec fn cursor(selected: bool) -> Seq<char> {
    if selected {
        ">> "@
    } else {
        "   "@
    }
}

/// The style of a row's label: bold text where it is selected.
pub open spec fn label_tone(selected: bool) -> Tone {
    if selected {
        Tone::Text
    } else {
        Tone::Secondary
    }
}

/// The line of an option row.
pub open spec fn option_line(row: OptionRow, selected: bool) -> Seq<(Seq<char>, Tone, bool)> {
    let t = label_tone(selected);
    match row {
        OptionRow::Bool(label, v) => seq![
            (cursor(selected), t, selected),
            ((if v { "[x]"@ } else { "[ ]"@ }) + " "@ + label@, t, selected),
        ],
        OptionRow::Number(label, v) => seq![
            (cursor(selected), t, selected),
            (label@ + ": "@, t, selected),
            (digits(v as nat), Tone::Header, selected),
            (if selected { "  -/+"@ } else { Seq::empty() }, Tone::Muted, false),
        ],
        OptionRow::OptNumber(label, v) => seq![
            (cursor(selected), t, selected),
            (label@ + ": "@, t, selected),
            (match v {
                Some(n) => digits(n as nat),
                None => "default"@,
            }, Tone::Header, selected),
        ],
    }
}

pub open spec fn option_lines(rows: Seq<OptionRow>, selected: int) -> Seq<Seq<(Seq<char>, Tone, bool)>> {
    Seq::new(rows.len(), |i: int| option_line(rows[i], i == selected))
}

pub open spec fn options_hint() -> Seq<char> {
    "   space:toggle  -/+:adjust  enter:run  esc:cancel"@
}

/// The overlay's lines: the option rows, a blank line, the run row and the
/// key hint.
pub open spec fn overlay_lines(rows: Seq<OptionRow>, selected: int) -> Seq<Seq<(Seq<char>, Tone, bool)>> {
    let run = selected == rows.len();
    option_lines(rows, selected) + seq![
        Seq::empty(),
        seq![(cursor(run), Tone::Success, run), ("[ Run ]"@, Tone::Success, run)],
        one(options_hint(), Tone::Muted, false),
    ]
}

/// The options overlay of a command: its title, its size within an area and
/// its lines.
pub struct OptionsOverlay {
    pub title: String,
    pub width: u16,
    pub height: u16,
    pub lines: Vec<Vec<Span>>,
}

fn cursor_text(selected: bool) -> (r: String)
    ensures
        r@ == cursor(selected),
{
    if selected {
        owned(">> ")
    } else {
        owned("   ")
    }
}

fn option_line_exec(row: &OptionRow, selected: bool) -> (r: Vec<Span>)
    ensures
        line_view(r@) == option_line(*row, selected),
{
    let t = if selected {
        Tone::Text
    } else {
        Tone::Secondary
    };
    let mut l: Vec<Span> = Vec::new();
    l.push(span(cursor_text(selected), t, selected));
    match row {
        OptionRow::Bool(label, v) => {
            let mut a: Vec<char> = Vec::new();
            append_str(&mut a, if *v { "[x]" } else { "[ ]" });
            append_str(&mut a, " ");
            append_str(&mut a, label);
            l.push(span(text_of(&a), t, selected));
        },
        OptionRow::Number(label, v) => {
            let mut a: Vec<char> = Vec::new();
            append_str(&mut a, label);
            append_str(&mut a, ": ");
            l.push(span(text_of(&a), t, selected));
            l.push(span(u64_to_string(*v as u64), Tone::Header, selected));
            l.push(span(if selected { owned("  -/+") } else { String::new() }, Tone::Muted, false));
        },
        OptionRow::OptNumber(label, v) => {
            let mut a: Vec<char> = Vec::new();
            append_str(&mut a, label);
            append_str(&mut a, ": ");
            l.push(span(text_of(&a), t, selected));
            let shown = match v {
                Some(n) => u64_to_string(*n as u64),
                None => owned("default"),
            };
            l.push(span(shown, Tone::Header, selected));
        },
    }
    assert(line_view(l@) =~= option_line(*row, selected));
    l
}

/// The options overlay, where options are being edited: titled with the
/// selected command's name (`command` where there is none), as high as its
/// lines plus the border and as wide as 44 columns, both within the area.
pub fn options_overlay(
    opts: &Option<CommandOpts>,
    command_rows: &Vec<CommandRow>,
    selected_command: usize,
    selected_option: usize,
    area_width: u16,
    area_height: u16,
) -> (r: Option<OptionsOverlay>)
    ensures
        match *opts {
            None => r is None,
            Some(o) => r matches Some(ov) && {
                let rows = rows_spec(o);
                &&& ov.title@ == " "@ + (if selected_command < command_rows@.len() {
                    command_rows@[selected_command as int].name@
                } else {
                    "command"@
                }) + " options "@
                &&& ov.height == (if rows.len() + 5 < area_height { (rows.len() + 5) as int } else { area_height as int })
                &&& ov.width == (if 44 < area_width { 44int } else { area_width as int })
                &&& lines_view(ov.lines@) == overlay_lines(rows, selected_option as int)
            },
        },
{
    let o = match opts {
        Some(o) => o,
        None => return None,
    };
    let rows = o.option_rows();
    assert(rows@.len() <= 5);
    let mut t: Vec<char> = Vec::new();
    append_str(&mut t, " ");
    if selected_command < command_rows.len() {
        append_str(&mut t, command_rows[selected_command].name.as_str());
    } else {
        append_str(&mut t, "command");
    }
    append_str(&mut t, " options ");
    let want: u16 = rows.len() as u16 + 5;
    let height = if want < area_height { want } else { area_height };
    let width = if 44 < area_width { 44 } else { area_width };
    let mut lines: Vec<Vec<Span>> = Vec::new();
    let mut i: usize = 0;
    while i < rows.len()
        invariant
            i <= rows@.len(),
            rows@ == rows_spec(*o),
            lines_view(lines@) == option_lines(rows@.take(i as int), selected_option as int),
        decreases rows@.len() - i,
    {
        let l = option_line_exec(&rows[i], i == selected_option);
        let ghost before = lines_view(lines@);
        lines.push(l);
        assert(lines_view(lines@) =~= option_lines(rows@.take(i + 1), selected_option as int)) by {
            assert(lines_view(lines@) =~= before.push(option_line(rows@[i as int], i == selected_option)));
        }
        i += 1;
    }
    assert(rows@.take(rows@.len() as int) =~= rows@);
    let ghost body = lines_view(lines@);
    lines.push(blank_line());
    let run = selected_option == rows.len();
    let mut run_line: Vec<Span> = Vec::new();
    run_line.push(span(cursor_text(run), Tone::Success, run));
    run_line.push(span(owned("[ Run ]"), Tone::Success, run));
    assert(line_view(run_line@) =~= seq![(cursor(run), Tone::Success, run), ("[ Run ]"@, Tone::Success, run)]);
    lines.push(run_line);
    lines.push(one_line(owned("   space:toggle  -/+:adjust  enter:run  esc:cancel"), Tone::Muted, false));
    assert(lines_view(lines@) =~= overlay_lines(rows_spec(*o), selected_option as int));
    Some(OptionsOverlay { title: text_of(&t), width, height, lines })
}

// ---------------------------------------------------------------------------
// The package table
// ---------------------------------------------------------------------------

/// The rows that show: the matches of an applied filter, or all of them.
pub open spec fn shown_rows(app: App) -> Seq<PackageRow> {
    if has_filter_spec(app@) {
        picked(app.package_rows@, app.filtered_indices@)
    } else {
        app.package_rows@
    }
}

/// The UTF-8 length of a text, as `str::len` counts it.
pub open spec fn byte_len(s: Seq<char>) -> nat {
    encode_utf8(s).len()
}

/// The longest name of `rows`, in bytes (zero for no rows).
pub open spec fn max_name_bytes(rows: Seq<PackageRow>) -> nat
    decreases rows.len(),
{
    if rows.len() == 0 {
        0
    } else {
        let m = max_name_bytes(rows.drop_last());
        let b = byte_len(rows.last().name@);
        if b > m {
            b
        } else {
            m
        }
    }
}

/// `s` padded with spaces to `w` characters (the `{:<w}` format).
pub open spec fn pad_right(s: Seq<char>, w: nat) -> Seq<char> {
    if s.len() < w {
        s + Seq::new((w - s.len()) as nat, |i: int| ' ')
    } else {
        s
    }
}

/// A row of the table: the name (a private package's padded to one past the
/// longest name and marked), version, SDK with its colour, and path.
pub open spec fn table_line(row: PackageRow, width: nat) -> (Seq<char>, Seq<char>, Seq<char>, Tone, Seq<char>) {
    (
        if row.is_private {
            pad_right(row.name@, width) + "(private)"@
        } else {
            row.name@
        },
        row.version@,
        row.sdk@,
        if row.sdk@ == "Flutter"@ {
            Tone::Accent
        } else {
            Tone::Success
        },
        row.path@,
    )
}

pub open spec fn table_lines(rows: Seq<PackageRow>) -> Seq<(Seq<char>, Seq<char>, Seq<char>, Tone, Seq<char>)> {
    rows.map_values(|r: PackageRow| table_line(r, max_name_bytes(rows) + 1))
}

proof fn lemma_bytes_at_least_chars(s: Seq<char>)
    ensures
        s.len() <= byte_len(s),
    decreases s.len(),
{
    if s.len() > 0 {
        lemma_bytes_at_least_chars(s.drop_first());
        assert(s.drop_first() == s.subrange(1, s.len() as int));
    }
}

proof fn lemma_max_name_bytes_bounds(rows: Seq<PackageRow>, i: int)
    requires
        0 <= i < rows.len(),
    ensures
        byte_len(rows[i].name@) <= max_name_bytes(rows),
    decreases rows.len(),
{
    if i < rows.len() - 1 {
        lemma_max_name_bytes_bounds(rows.drop_last(), i);
    }
}

/// The "(private)" marks of the table line up: every private package's
/// name is padded to the same width, one past the longest name, so its mark
/// starts at that column; the name itself stays at the start.
pub proof fn lemma_private_marks_align(rows: Seq<PackageRow>)
    ensures
        forall|i: int|
            0 <= i < rows.len() && rows[i].is_private ==> {
                let t = #[trigger] table_lines(rows)[i].0;
                let w = max_name_bytes(rows) + 1;
                &&& t.len() == w + 9
                &&& t.subrange(w as int, w as int + 9) == "(private)"@
                &&& t.take(rows[i].name@.len() as int) == rows[i].name@
            },
{
    reveal_strlit("(private)");
    assert forall|i: int| 0 <= i < rows.len() && rows[i].is_private implies {
        let t = #[trigger] table_lines(rows)[i].0;
        let w = max_name_bytes(rows) + 1;
        &&& t.len() == w + 9
        &&& t.subrange(w as int, w as int + 9) == "(private)"@
        &&& t.take(rows[i].name@.len() as int) == rows[i].name@
    } by {
        let n = rows[i].name@;
        let w = max_name_bytes(rows) + 1;
        lemma_bytes_at_least_chars(n);
        lemma_max_name_bytes_bounds(rows, i);
        let padded = pad_right(n, w);
        assert(padded.len() == w);
        let t = table_lines(rows)[i].0;
        assert(t == padded + "(private)"@);
        assert(t.subrange(w as int, w as int + 9) =~= "(private)"@);
        assert(t.take(n.len() as int) =~= n);
    }
}

/// A row of the package table as shown.
pub struct PackageLine {
    pub name: String,
    pub version: String,
    pub sdk: String,
    pub sdk_tone: Tone,
    pub path: String,
}

pub open spec fn package_line_view(l: PackageLine) -> (Seq<char>, Seq<char>, Seq<char>, Tone, Seq<char>) {
    (l.name@, l.version@, l.sdk@, l.sdk_tone, l.path@)
}

/// The package panel: its title and border colour, and either a message or
/// the table rows with the selected one.
pub struct PackagesPanel {
    pub title: String,
    pub border: Tone,
    /// The column headings of the table (none with a message).
    pub header: Vec<String>,
    pub message: Vec<Vec<Span>>,
    pub rows: Vec<PackageLine>,
    pub selected: Option<usize>,
}

pub open spec fn focus_tone(focused: bool) -> Tone {
    if focused {
        Tone::Accent
    } else {
        Tone::Muted
    }
}

pub open spec fn no_workspace_lines() -> Seq<Seq<(Seq<char>, Tone, bool)>> {
    seq![
        Seq::empty(),
        one("  No workspace found"@, Tone::Error, true),
        Seq::empty(),
        one("  Run `melos-rs init` to create a workspace,"@, Tone::Muted, false),
        one("  or run from a directory with melos.yaml."@, Tone::Muted, false),
    ]
}

pub open spec fn no_match_lines(filter: Seq<char>) -> Seq<Seq<(Seq<char>, Tone, bool)>> {
    seq![
        Seq::empty(),
        one("  No packages match \""@ + filter + "\""@, Tone::Muted, false),
        Seq::empty(),
        one("  Press Esc to clear filter"@, Tone::Muted, false),
    ]
}

pub open spec fn no_packages_lines() -> Seq<Seq<(Seq<char>, Tone, bool)>> {
    seq![
        Seq::empty(),
        one("  No packages found"@, Tone::Muted, false),
        Seq::empty(),
        one("  Check `packages` globs in melos.yaml"@, Tone::Muted, false),
    ]
}

/// What the package panel shows: a message without a workspace, without
/// matches of the filter, or without packages; else the table of the rows
/// that show, titled with their count (of all packages, under a filter).
pub open spec fn packages_panel_spec(app: App, focused: bool, p: PackagesPanel) -> bool {
    let shown = shown_rows(app);
    let count = app.package_rows@.len();
    if app.workspace_name is None {
        &&& p.title@ == " Packages "@
        &&& p.border == Tone::Error
        &&& lines_view(p.message@) == no_workspace_lines()
        &&& p.header@.len() == 0
        &&& p.rows@.len() == 0
        &&& p.selected is None
    } else if shown.len() == 0 {
        &&& p.title@ == (if has_filter_spec(app@) {
            " Packages (0/"@ + digits(count) + ") "@
        } else {
            " Packages (0) "@
        })
        &&& p.border == focus_tone(focused)
        &&& lines_view(p.message@) == (if has_filter_spec(app@) {
            no_match_lines(app.filter_text@)
        } else {
            no_packages_lines()
        })
        &&& p.header@.len() == 0
        &&& p.rows@.len() == 0
        &&& p.selected is None
    } else {
        &&& p.title@ == (if has_filter_spec(app@) {
            " Packages ("@ + digits(app.filtered_indices@.len()) + "/"@ + digits(count) + ") "@
        } else {
            " Packages ("@ + digits(count) + ") "@
        })
        &&& p.border == focus_tone(focused)
        &&& p.message@.len() == 0
        &&& views(p.header@) == seq!["Name"@, "Version"@, "SDK"@, "Path"@]
        &&& p.rows@.map_values(|l: PackageLine| package_line_view(l)) == table_lines(shown)
        &&& p.selected == Some(app.selected_package)
    }
}

fn spaces_to(out: &mut Vec<char>, n: usize)
    ensures
        final(out)@ == old(out)@ + Seq::new(n as nat, |i: int| ' '),
{
    let ghost start = out@;
    let mut i: usize = 0;
    while i < n
        invariant
            i <= n,
            out@ == start + Seq::new(i as nat, |k: int| ' '),
        decreases n - i,
    {
        out.push(' ');
        assert(start + Seq::new((i + 1) as nat, |k: int| ' ') =~= (start + Seq::new(i as nat, |k: int| ' ')).push(' '));
        i += 1;
    }
}

fn table_line_exec(row: &PackageRow, widest: usize) -> (r: PackageLine)
    ensures
        package_line_view(r) == table_line(*row, widest as nat + 1),
{
    let name = if row.is_private {
        let mut a = crate::text::to_chars(row.name.as_str());
        let n = a.len();
        if n <= widest {
            spaces_to(&mut a, widest - n);
            a.push(' ');
            assert(a@ =~= row.name@ + Seq::new((widest as nat + 1 - row.name@.len()) as nat, |i: int| ' '));
        }
        append_str(&mut a, "(private)");
        text_of(&a)
    } else {
        owned(row.name.as_str())
    };
    let flutter = crate::text::str_eq(row.sdk, "Flutter");
    PackageLine {
        name,
        version: owned(row.version.as_str()),
        sdk: owned(row.sdk),
        sdk_tone: if flutter {
            Tone::Accent
        } else {
            Tone::Success
        },
        path: owned(row.path.as_str()),
    }
}

fn message(lines: Seq<Seq<(Seq<char>, Tone, bool)>>, v: Vec<Vec<Span>>) -> (r: Vec<Vec<Span>>)
    requires
        lines_view(v@) == lines,
    ensures
        lines_view(r@) == lines,
{
    v
}

/// The package panel (see [`packages_panel_spec`]).
pub fn packages_panel(app: &App, focused: bool) -> (r: PackagesPanel)
    ensures
        packages_panel_spec(*app, focused, r),
{
    let border = if focused {
        Tone::Accent
    } else {
        Tone::Muted
    };
    if app.workspace_name.is_none() {
        let mut m: Vec<Vec<Span>> = Vec::new();
        m.push(blank_line());
        m.push(one_line(owned("  No workspace found"), Tone::Error, true));
        m.push(blank_line());
        m.push(one_line(owned("  Run `melos-rs init` to create a workspace,"), Tone::Muted, false));
        m.push(one_line(owned("  or run from a directory with melos.yaml."), Tone::Muted, false));
        assert(lines_view(m@) =~= no_workspace_lines());
        return PackagesPanel {
            title: owned(" Packages "),
            border: Tone::Error,
            header: Vec::new(),
            message: m,
            rows: Vec::new(),
            selected: None,
        };
    }
    let visible = app.visible_packages();
    let ghost shown = shown_rows(*app);
    assert(derefs(visible@) == shown);
    let count = u64_to_string(app.package_count() as u64);
    let filtered = app.has_filter();
    if visible.len() == 0 {
        assert(shown.len() == 0);
        let mut t: Vec<char> = Vec::new();
        let mut m: Vec<Vec<Span>> = Vec::new();
        m.push(blank_line());
        if filtered {
            append_str(&mut t, " Packages (0/");
            append_str(&mut t, count.as_str());
            append_str(&mut t, ") ");
            let mut q: Vec<char> = Vec::new();
            append_str(&mut q, "  No packages match \"");
            append_str(&mut q, app.filter_text.as_str());
            append_str(&mut q, "\"");
            m.push(one_line(text_of(&q), Tone::Muted, false));
            m.push(blank_line());
            m.push(one_line(owned("  Press Esc to clear filter"), Tone::Muted, false));
            assert(lines_view(m@) =~= no_match_lines(app.filter_text@));
        } else {
            append_str(&mut t, " Packages (0) ");
            m.push(one_line(owned("  No packages found"), Tone::Muted, false));
            m.push(blank_line());
            m.push(one_line(owned("  Check `packages` globs in melos.yaml"), Tone::Muted, false));
            assert(lines_view(m@) =~= no_packages_lines());
        }
        return PackagesPanel { title: text_of(&t), border, header: Vec::new(), message: m, rows: Vec::new(), selected: None };
    }
    let mut widest: usize = 0;
    let mut i: usize = 0;
    while i < visible.len()
        invariant
            i <= visible@.len(),
            derefs(visible@) == shown,
            widest == max_name_bytes(shown.take(i as int)),
        decreases visible@.len() - i,
    {
        let b = visible[i].name.as_str().as_bytes().len();
        assert(shown.take(i + 1).drop_last() =~= shown.take(i as int));
        assert(shown[i as int] == *visible@[i as int]);
        if b > widest {
            widest = b;
        }
        i += 1;
    }
    assert(shown.take(shown.len() as int) =~= shown);
    let mut rows: Vec<PackageLine> = Vec::new();
    let mut k: usize = 0;
    while k < visible.len()
        invariant
            k <= visible@.len(),
            derefs(visible@) == shown,
            widest == max_name_bytes(shown),
            rows@.map_values(|l: PackageLine| package_line_view(l)) == table_lines(shown).take(k as int),
        decreases visible@.len() - k,
    {
        let l = table_line_exec(visible[k], widest);
        assert(shown[k as int] == *visible@[k as int]);
        let ghost before = rows@.map_values(|l: PackageLine| package_line_view(l));
        rows.push(l);
        assert(rows@.map_values(|l: PackageLine| package_line_view(l)) =~= table_lines(shown).take(k + 1)) by {
            assert(rows@.map_values(|l: PackageLine| package_line_view(l)) =~= before.push(package_line_view(l)));
        }
        k += 1;
    }
    assert(table_lines(shown).take(shown.len() as int) =~= table_lines(shown));
    let mut t: Vec<char> = Vec::new();
    append_str(&mut t, " Packages (");
    if filtered {
        let v = u64_to_string(app.filtered_indices.len() as u64);
        append_str(&mut t, v.as_str());
        append_str(&mut t, "/");
    }
    append_str(&mut t, count.as_str());
    append_str(&mut t, ") ");
    let mut header: Vec<String> = Vec::new();
    header.push(owned("Name"));
    header.push(owned("Version"));
    header.push(owned("SDK"));
    header.push(owned("Path"));
    assert(views(header@) =~= seq!["Name"@, "Version"@, "SDK"@, "Path"@]);
    PackagesPanel { title: text_of(&t), border, header, message: Vec::new(), rows, selected: Some(app.selected_package) }
}

// ---------------------------------------------------------------------------
// The results of a command
// ---------------------------------------------------------------------------

/// How many of the finished packages succeeded (`ok`) or failed (`!ok`).
pub open spec fn count_outcome(fin: Seq<(String, bool, String)>, ok: bool) -> nat
    decreases fin.len(),
{
    if fin.len() == 0 {
        0
    } else {
        count_outcome(fin.drop_last(), ok) + if fin.last().1 == ok {
            1nat
        } else {
            0nat
        }
    }
}

/// The line of a finished package: a mark, its name, and how long it took.
pub open spec fn finished_line(f: (String, bool, String)) -> Seq<(Seq<char>, Tone, bool)> {
    seq![
        (if f.1 { " + "@ } else { " x "@ }, if f.1 { Tone::Green } else { Tone::Red }, true),
        (f.0@, Tone::Default, false),
        ("  ("@ + f.2@ + ")"@, Tone::DarkGray, false),
    ]
}

/// The summary above the output of a finished command: the counts (red
/// where something failed or the command failed), the error, each finished
/// package, and a blank line.
pub open spec fn results_spec(
    command: Option<Seq<char>>,
    error: Option<Seq<char>>,
    fin: Seq<(String, bool, String)>,
) -> Seq<Seq<(Seq<char>, Tone, bool)>> {
    let passed = count_outcome(fin, true);
    let failed = count_outcome(fin, false);
    let name = match command {
        Some(c) => c,
        None => "command"@,
    };
    seq![one(
        name + ": "@ + digits(passed) + " passed, "@ + digits(failed) + " failed"@,
        if failed > 0 || error is Some { Tone::Red } else { Tone::Green },
        true,
    )] + (match error {
        Some(e) => seq![one("Error: "@ + e, Tone::Red, false)],
        None => seq![],
    }) + (if fin.len() > 0 {
        seq![Seq::empty()] + fin.map_values(|f: (String, bool, String)| finished_line(f))
    } else {
        seq![]
    }) + seq![Seq::empty()]
}

proof fn lemma_count_bound(fin: Seq<(String, bool, String)>, ok: bool)
    ensures
        count_outcome(fin, ok) <= fin.len(),
    decreases fin.len(),
{
    if fin.len() > 0 {
        lemma_count_bound(fin.drop_last(), ok);
    }
}

/// The summary of a finished command, given each finished package's name,
/// outcome and duration as shown.
pub fn results_summary(command: Option<&str>, error: Option<&str>, finished: &Vec<(String, bool, String)>) -> (r: Vec<Vec<Span>>)
    ensures
        lines_view(r@) == results_spec(
            match command {
                Some(c) => Some(c@),
                None => None,
            },
            match error {
                Some(e) => Some(e@),
                None => None,
            },
            finished@,
        ),
{
    let mut passed: usize = 0;
    let mut failed: usize = 0;
    let mut i: usize = 0;
    while i < finished.len()
        invariant
            i <= finished@.len(),
            passed == count_outcome(finished@.take(i as int), true),
            failed == count_outcome(finished@.take(i as int), false),
        decreases finished@.len() - i,
    {
        assert(finished@.take(i + 1).drop_last() =~= finished@.take(i as int));
        proof {
            lemma_count_bound(finished@.take(i as int), true);
            lemma_count_bound(finished@.take(i as int), false);
        }
        if finished[i].1 {
            passed += 1;
        } else {
            failed += 1;
        }
        i += 1;
    }
    assert(finished@.take(finished@.len() as int) =~= finished@);
    let mut t: Vec<char> = Vec::new();
    match command {
        Some(c) => append_str(&mut t, c),
        None => append_str(&mut t, "command"),
    }
    append_str(&mut t, ": ");
    append_str(&mut t, u64_to_string(passed as u64).as_str());
    append_str(&mut t, " passed, ");
    append_str(&mut t, u64_to_string(failed as u64).as_str());
    append_str(&mut t, " failed");
    let bad = failed > 0 || error.is_some();
    let mut out: Vec<Vec<Span>> = Vec::new();
    out.push(one_line(text_of(&t), if bad { Tone::Red } else { Tone::Green }, true));
    let ghost head = lines_view(out@);
    match error {
        Some(e) => {
            let mut m: Vec<char> = Vec::new();
            append_str(&mut m, "Error: ");
            append_str(&mut m, e);
            out.push(one_line(text_of(&m), Tone::Red, false));
        },
        None => {},
    }
    let ghost with_error = lines_view(out@);
    if finished.len() > 0 {
        out.push(blank_line());
        let ghost start = lines_view(out@);
        let mut k: usize = 0;
        while k < finished.len()
            invariant
                k <= finished@.len(),
                lines_view(out@) == start + finished@.take(k as int).map_values(
                    |f: (String, bool, String)| finished_line(f),
                ),
            decreases finished@.len() - k,
        {
            let f = &finished[k];
            let mut l: Vec<Span> = Vec::new();
            l.push(span(owned(if f.1 { " + " } else { " x " }), if f.1 { Tone::Green } else { Tone::Red }, true));
            l.push(span(owned(f.0.as_str()), Tone::Default, false));
            let mut d: Vec<char> = Vec::new();
            append_str(&mut d, "  (");
            append_str(&mut d, f.2.as_str());
            append_str(&mut d, ")");
            l.push(span(text_of(&d), Tone::DarkGray, false));
            assert(line_view(l@) =~= finished_line(finished@[k as int]));
            let ghost before = lines_view(out@);
            out.push(l);
            proof {
                assert(lines_view(out@) =~= before.push(finished_line(finished@[k as int])));
                assert(finished@.take(k + 1).map_values(|f: (String, bool, String)| finished_line(f))
                    =~= finished@.take(k as int).map_values(|f: (String, bool, String)| finished_line(f)).push(
                    finished_line(finished@[k as int]),
                ));
            }
            k += 1;
        }
        assert(finished@.take(finished@.len() as int) =~= finished@);
    }
    let ghost body = lines_view(out@);
    out.push(blank_line());
    proof {
        assert(lines_view(out@) =~= body.push(Seq::empty()));
    }
    out
}

/// The title of the output log: the lines shown and the total where not all
/// of them fit, else the number of lines.
pub open spec fn output_title_spec(total: nat, scroll: nat, height: nat) -> Seq<char> {
    if total > height {
        " Output ("@ + digits(scroll + 1) + "-"@ + digits(if scroll + height < total { scroll + height } else { total })
            + " of "@ + digits(total) + ") "@
    } else {
        " Output ("@ + digits(total) + " lines) "@
    }
}

/// The title of the output log (see [`output_title_spec`]).
pub fn output_title(total: usize, scroll: usize, height: usize) -> (r: String)
    requires
        scroll < usize::MAX,
    ensures
        r@ == output_title_spec(total as nat, scroll as nat, height as nat),
{
    let mut t: Vec<char> = Vec::new();
    append_str(&mut t, " Output (");
    if total > height {
        append_str(&mut t, u64_to_string((scroll + 1) as u64).as_str());
        append_str(&mut t, "-");
        let end: usize = if scroll < total - height { scroll + height } else { total };
        append_str(&mut t, u64_to_string(end as u64).as_str());
        append_str(&mut t, " of ");
        append_str(&mut t, u64_to_string(total as u64).as_str());
        append_str(&mut t, ") ");
    } else {
        append_str(&mut t, u64_to_string(total as u64).as_str());
        append_str(&mut t, " lines) ");
    }
    text_of(&t)
}

// ---------------------------------------------------------------------------
// The output log
// ---------------------------------------------------------------------------

/// The number of colours in the palette of package colours.
pub const PALETTE_SIZE: usize = 10;

/// The package names of `names` in the order they first appear, each once.
pub open spec fn first_seen(names: Seq<Seq<char>>) -> Seq<Seq<char>>
    decreases names.len(),
{
    if names.len() == 0 {
        seq![]
    } else {
        let prev = first_seen(names.drop_last());
        if prev.contains(names.last()) {
            prev
        } else {
            prev.push(names.last())
        }
    }
}

/// The first place of `x` in `s` at or after `i` (the length where none).
pub open spec fn place_of(s: Seq<Seq<char>>, x: Seq<char>, i: int) -> int
    decreases s.len() - i,
{
    if i < 0 || i >= s.len() {
        s.len() as int
    } else if s[i] == x {
        i
    } else {
        place_of(s, x, i + 1)
    }
}

pub open spec fn log_names(log: Seq<(String, String, bool)>) -> Seq<Seq<char>> {
    log.map_values(|e: (String, String, bool)| e.0@)
}

/// A line of the log: the package in brackets, in its colour (by the order
/// in which packages first wrote output), then the text, red on stderr.
pub open spec fn output_line(log: Seq<(String, String, bool)>, j: int) -> Seq<(Seq<char>, Tone, bool)> {
    let e = log[j];
    let c = place_of(first_seen(log_names(log)), e.0@, 0);
    seq![
        ("["@ + e.0@ + "] "@, Tone::Palette((c % 10) as usize), true),
        (e.1@, if e.2 { Tone::Red } else { Tone::Default }, false),
    ]
}

/// The end of the window of `height` lines from `scroll` in `len` lines.
pub open spec fn window_end(len: nat, scroll: nat, height: nat) -> nat {
    if scroll + height < len {
        scroll + height
    } else {
        len
    }
}

/// The lines of the log shown from line `scroll`, at most `height` of them.
pub open spec fn output_spec(log: Seq<(String, String, bool)>, scroll: nat, height: nat) -> Seq<
    Seq<(Seq<char>, Tone, bool)>,
> {
    let end = window_end(log.len(), scroll, height);
    let start = if scroll < end {
        scroll
    } else {
        end
    };
    Seq::new((end - start) as nat, |k: int| output_line(log, start + k))
}

fn first_seen_exec(log: &Vec<(String, String, bool)>) -> (r: Vec<String>)
    ensures
        views(r@) == first_seen(log_names(log@)),
{
    let ghost names = log_names(log@);
    let mut seen: Vec<String> = Vec::new();
    let mut i: usize = 0;
    while i < log.len()
        invariant
            i <= log@.len(),
            names == log_names(log@),
            views(seen@) == first_seen(names.take(i as int)),
        decreases log@.len() - i,
    {
        assert(names.take(i + 1).drop_last() =~= names.take(i as int));
        assert(names.take(i + 1).last() == log@[i as int].0@);
        let found = crate::config::contains_string(&seen, log[i].0.as_str());
        if !found {
            let ghost before = views(seen@);
            seen.push(owned(log[i].0.as_str()));
            assert(views(seen@) =~= before.push(log@[i as int].0@));
        }
        i += 1;
    }
    assert(names.take(log@.len() as int) =~= names);
    seen
}

fn place_exec(seen: &Vec<String>, x: &str) -> (r: usize)
    ensures
        r == place_of(views(seen@), x@, 0),
{
    let mut i: usize = 0;
    while i < seen.len()
        invariant
            i <= seen@.len(),
            place_of(views(seen@), x@, 0) == place_of(views(seen@), x@, i as int),
        decreases seen@.len() - i,
    {
        if crate::text::str_eq(seen[i].as_str(), x) {
            return i;
        }
        i += 1;
    }
    i
}

/// The lines of the output log in the window of `height` lines from line
/// `scroll` (see [`output_spec`]).
pub fn output_lines(log: &Vec<(String, String, bool)>, scroll: usize, height: usize) -> (r: Vec<Vec<Span>>)
    ensures
        lines_view(r@) == output_spec(log@, scroll as nat, height as nat),
{
    let n = log.len();
    let end: usize = if scroll >= n || height >= n - scroll {
        n
    } else {
        scroll + height
    };
    let start: usize = if scroll < end {
        scroll
    } else {
        end
    };
    let seen = first_seen_exec(log);
    let mut out: Vec<Vec<Span>> = Vec::new();
    let mut j: usize = start;
    while j < end
        invariant
            start <= j <= end <= log@.len(),
            end == window_end(log@.len(), scroll as nat, height as nat),
            start == (if scroll < end { scroll } else { end }),
            views(seen@) == first_seen(log_names(log@)),
            lines_view(out@) == Seq::new((j - start) as nat, |k: int| output_line(log@, start + k)),
        decreases end - j,
    {
        let e = &log[j];
        let c = place_exec(&seen, e.0.as_str());
        let mut a: Vec<char> = Vec::new();
        append_str(&mut a, "[");
        append_str(&mut a, e.0.as_str());
        append_str(&mut a, "] ");
        let mut l: Vec<Span> = Vec::new();
        l.push(span(text_of(&a), Tone::Palette(c % PALETTE_SIZE), true));
        l.push(span(owned(e.1.as_str()), if e.2 { Tone::Red } else { Tone::Default }, false));
        assert(line_view(l@) =~= output_line(log@, j as int));
        let ghost before = lines_view(out@);
        out.push(l);
        assert(lines_view(out@) =~= Seq::new((j + 1 - start) as nat, |k: int| output_line(log@, start + k))) by {
            assert(lines_view(out@) =~= before.push(output_line(log@, j as int)));
        }
        j += 1;
    }
    out
}

// ---------------------------------------------------------------------------
// The header, the footer, the command table and the running view
// ---------------------------------------------------------------------------

/// The workspace shown in the header: its name, configuration source and
/// number of packages, or a note that none is loaded.
pub open spec fn workspace_info(name: Option<String>, source: Option<String>, count: nat) -> Seq<char> {
    match (name, source) {
        (Some(n), Some(s)) => n@ + " ("@ + s@ + ", "@ + digits(count) + " packages)"@,
        _ => "no workspace loaded"@,
    }
}

/// The header line: the program's name, then the workspace.
pub open spec fn header_spec(info: Seq<char>) -> Seq<(Seq<char>, Tone, bool)> {
    seq![(" melos-tui "@, Tone::Accent, true), ("| "@, Tone::Default, false), (info, Tone::Text, false)]
}

/// The header: the line on the left, and the version tag `v<version> ` on
/// the right.
pub fn header_line(app: &App, version: &str) -> (r: (Vec<Span>, String))
    ensures
        line_view(r.0@) == header_spec(workspace_info(app.workspace_name, app.config_source_label, app.package_rows@.len())),
        r.1@ == "v"@ + version@ + " "@,
{
    let mut info: Vec<char> = Vec::new();
    match (&app.workspace_name, &app.config_source_label) {
        (Some(n), Some(src)) => {
            append_str(&mut info, n.as_str());
            append_str(&mut info, " (");
            append_str(&mut info, src.as_str());
            append_str(&mut info, ", ");
            append_str(&mut info, u64_to_string(app.package_count() as u64).as_str());
            append_str(&mut info, " packages)");
        },
        _ => {
            append_str(&mut info, "no workspace loaded");
        },
    }
    let mut l: Vec<Span> = Vec::new();
    l.push(span(owned(" melos-tui "), Tone::Accent, true));
    l.push(span(owned("| "), Tone::Default, false));
    l.push(span(text_of(&info), Tone::Text, false));
    assert(line_view(l@) =~= header_spec(workspace_info(app.workspace_name, app.config_source_label, app.package_rows@.len())));
    let mut tag: Vec<char> = Vec::new();
    append_str(&mut tag, "v");
    append_str(&mut tag, version);
    append_str(&mut tag, " ");
    (l, text_of(&tag))
}

pub open spec fn idle_keys() -> Seq<char> {
    "q:quit  j/k:navigate  g/G:jump  f/b:page  tab:switch  /:filter  t:theme  enter:run  ?:help"@
}

pub open spec fn filter_keys() -> Seq<char> {
    "| /:edit  esc:clear  j/k:navigate  tab:switch  enter:run  ?:help"@
}

/// The key hints of a state.
pub open spec fn keys_of(state: AppState, health: bool) -> Seq<char> {
    match state {
        AppState::Idle => idle_keys(),
        AppState::Running => "esc:cancel"@,
        AppState::Done => if health {
            "esc/enter/q:back  tab:switch tabs  j/k:scroll  g/G:jump  f/b:page  ctrl+c:quit"@
        } else {
            "esc/enter/q:back  j/k:scroll  g/G:jump  f/b:page  ctrl+c:quit"@
        },
    }
}

/// The footer: the filter prompt while the filter is typed; the applied
/// filter with its keys when idle under a filter; else the key hints of the
/// state.
pub open spec fn footer_spec(app: App) -> Seq<(Seq<char>, Tone, bool)> {
    if app.filter_active {
        seq![(" /"@, Tone::Header, true), (app.filter_text@, Tone::Default, false), ("_"@, Tone::Muted, false)]
    } else if has_filter_spec(app@) && app.state == AppState::Idle {
        seq![(" filter: "@ + app.filter_text@ + " "@, Tone::Header, false), (filter_keys(), Tone::Muted, false)]
    } else {
        seq![(" "@, Tone::Default, false), (keys_of(app.state, app.health_report is Some), Tone::Muted, false)]
    }
}

/// The footer line, and the theme's name shown at its right edge (when idle,
/// with no filter showing, and where the area is wider than the label).
pub fn footer(app: &App, area_width: u16) -> (r: (Vec<Span>, Option<String>))
    ensures
        line_view(r.0@) == footer_spec(*app),
        match r.1 {
            Some(label) => {
                &&& !app.filter_active
                &&& !(has_filter_spec(app@) && app.state == AppState::Idle)
                &&& app.state == AppState::Idle
                &&& label@ == " "@ + (if app.theme_index < 19 {
                    crate::app::THEME_NAMES[app.theme_index as int]@
                } else {
                    "dark"@
                }) + " "@
                &&& byte_len(label@) < area_width
            },
            None => app.filter_active || (has_filter_spec(app@) && app.state == AppState::Idle)
                || app.state != AppState::Idle || {
                let label = " "@ + (if app.theme_index < 19 {
                    crate::app::THEME_NAMES[app.theme_index as int]@
                } else {
                    "dark"@
                }) + " "@;
                byte_len(label) >= area_width
            },
        },
{
    let mut l: Vec<Span> = Vec::new();
    if app.filter_active {
        l.push(span(owned(" /"), Tone::Header, true));
        l.push(span(owned(app.filter_text.as_str()), Tone::Default, false));
        l.push(span(owned("_"), Tone::Muted, false));
        assert(line_view(l@) =~= footer_spec(*app));
        return (l, None);
    }
    let idle = match app.state {
        AppState::Idle => true,
        _ => false,
    };
    if app.has_filter() && idle {
        let mut t: Vec<char> = Vec::new();
        append_str(&mut t, " filter: ");
        append_str(&mut t, app.filter_text.as_str());
        append_str(&mut t, " ");
        l.push(span(text_of(&t), Tone::Header, false));
        l.push(span(owned("| /:edit  esc:clear  j/k:navigate  tab:switch  enter:run  ?:help"), Tone::Muted, false));
        assert(line_view(l@) =~= footer_spec(*app));
        return (l, None);
    }
    let keys = match app.state {
        AppState::Idle => "q:quit  j/k:navigate  g/G:jump  f/b:page  tab:switch  /:filter  t:theme  enter:run  ?:help",
        AppState::Running => "esc:cancel",
        AppState::Done => if app.health_report.is_some() {
            "esc/enter/q:back  tab:switch tabs  j/k:scroll  g/G:jump  f/b:page  ctrl+c:quit"
        } else {
            "esc/enter/q:back  j/k:scroll  g/G:jump  f/b:page  ctrl+c:quit"
        },
    };
    l.push(span(owned(" "), Tone::Default, false));
    l.push(span(owned(keys), Tone::Muted, false));
    assert(line_view(l@) =~= footer_spec(*app));
    if !idle {
        return (l, None);
    }
    let mut t: Vec<char> = Vec::new();
    append_str(&mut t, " ");
    append_str(&mut t, app.theme_name());
    append_str(&mut t, " ");
    let label = text_of(&t);
    let w = label.as_str().as_bytes().len();
    if w < area_width as usize {
        (l, Some(label))
    } else {
        (l, None)
    }
}

/// A row of the command table: the name (white for a built-in command, cyan
/// for a script) and the description.
pub struct CommandLine {
    pub name: String,
    pub builtin: bool,
    pub description: String,
}

/// The command table: its title, border colour and rows.
pub struct CommandsPanel {
    pub title: String,
    pub border: Tone,
    pub header: Vec<String>,
    pub rows: Vec<CommandLine>,
    pub selected: usize,
}

pub open spec fn command_line_view(l: CommandLine) -> (Seq<char>, bool, Seq<char>) {
    (l.name@, l.builtin, l.description@)
}

pub open spec fn command_row_view(c: CommandRow) -> (Seq<char>, bool, Seq<char>) {
    (
        c.name@,
        c.is_builtin,
        match c.description {
            Some(d) => d@,
            None => Seq::empty(),
        },
    )
}

/// The command table: every command and script, titled with their number.
pub fn commands_panel(app: &App, focused: bool) -> (r: CommandsPanel)
    ensures
        r.title@ == " Commands ("@ + digits(app.command_rows@.len()) + ") "@,
        r.border == (if focused { Tone::Accent } else { Tone::DarkGray }),
        views(r.header@) == seq!["Command"@, "Description"@],
        r.rows@.map_values(|l: CommandLine| command_line_view(l)) == app.command_rows@.map_values(
            |c: CommandRow| command_row_view(c),
        ),
        r.selected == app.selected_command,
{
    let mut rows: Vec<CommandLine> = Vec::new();
    let mut i: usize = 0;
    while i < app.command_rows.len()
        invariant
            i <= app.command_rows@.len(),
            rows@.map_values(|l: CommandLine| command_line_view(l)) == app.command_rows@.take(i as int).map_values(
                |c: CommandRow| command_row_view(c),
            ),
        decreases app.command_rows@.len() - i,
    {
        let c = &app.command_rows[i];
        let description = match &c.description {
            Some(d) => owned(d.as_str()),
            None => String::new(),
        };
        let l = CommandLine { name: owned(c.name.as_str()), builtin: c.is_builtin, description };
        let ghost before = rows@.map_values(|l: CommandLine| command_line_view(l));
        rows.push(l);
        assert(rows@.map_values(|l: CommandLine| command_line_view(l)) =~= app.command_rows@.take(i + 1).map_values(
            |c: CommandRow| command_row_view(c),
        )) by {
            assert(rows@.map_values(|l: CommandLine| command_line_view(l)) =~= before.push(
                command_row_view(app.command_rows@[i as int]),
            ));
        }
        i += 1;
    }
    assert(app.command_rows@.take(app.command_rows@.len() as int) =~= app.command_rows@);
    let mut t: Vec<char> = Vec::new();
    append_str(&mut t, " Commands (");
    append_str(&mut t, u64_to_string(app.command_count() as u64).as_str());
    append_str(&mut t, ") ");
    let mut header: Vec<String> = Vec::new();
    header.push(owned("Command"));
    header.push(owned("Description"));
    assert(views(header@) =~= seq!["Command"@, "Description"@]);
    CommandsPanel {
        title: text_of(&t),
        border: if focused {
            Tone::Accent
        } else {
            Tone::DarkGray
        },
        header,
        rows,
        selected: app.selected_command,
    }
}

/// The view of a running command: its title (with the time since it
/// started, where known), the progress as done and total with the packages
/// running, the first output line shown and the output lines.
pub struct RunningView {
    pub title: String,
    pub completed: usize,
    pub total: usize,
    pub progress_label: String,
    pub scroll: usize,
    pub lines: Vec<Vec<Span>>,
}

/// The first output line shown while running: the last page when following
/// the output, else the chosen line.
pub open spec fn running_scroll(app: App, height: nat) -> nat {
    if app.auto_scroll {
        if app.output_log@.len() > height {
            (app.output_log@.len() - height) as nat
        } else {
            0
        }
    } else {
        app.output_scroll as nat
    }
}

/// The view of the running command, `elapsed` seconds after it started
/// where that is known, with `height` output lines shown.
pub fn running_view(app: &App, elapsed: Option<u64>, height: usize) -> (r: RunningView)
    ensures
        r.title@ == " Running: "@ + (match app.running_command {
            Some(c) => c@,
            None => "command"@,
        }) + (match elapsed {
            Some(s) => "  "@ + crate::tui::elapsed_text(s as nat),
            None => Seq::empty(),
        }) + " "@,
        (r.completed, r.total) == (match app.progress {
            Some(p) => (p.0, p.1),
            None => (0usize, 0usize),
        }),
        r.progress_label@ == digits(r.completed as nat) + "/"@ + digits(r.total as nat) + (if app.running_packages@.len() == 0 {
            Seq::empty()
        } else {
            "  ("@ + join(views(app.running_packages@), ", "@) + ")"@
        }),
        r.scroll == running_scroll(*app, height as nat),
        lines_view(r.lines@) == output_spec(app.output_log@, r.scroll as nat, height as nat),
{
    let mut t: Vec<char> = Vec::new();
    append_str(&mut t, " Running: ");
    match &app.running_command {
        Some(c) => append_str(&mut t, c.as_str()),
        None => append_str(&mut t, "command"),
    }
    match elapsed {
        Some(s) => {
            append_str(&mut t, "  ");
            append_str(&mut t, crate::tui::format_elapsed(s).as_str());
        },
        None => {},
    }
    append_str(&mut t, " ");
    let (completed, total) = match &app.progress {
        Some(p) => (p.0, p.1),
        None => (0usize, 0usize),
    };
    let mut label: Vec<char> = Vec::new();
    append_str(&mut label, u64_to_string(completed as u64).as_str());
    append_str(&mut label, "/");
    append_str(&mut label, u64_to_string(total as u64).as_str());
    if app.running_packages.len() > 0 {
        append_str(&mut label, "  (");
        append_str(&mut label, join_strings(&app.running_packages, ", ").as_str());
        append_str(&mut label, ")");
    }
    let n = app.output_log.len();
    let scroll = if app.auto_scroll {
        if n > height {
            n - height
        } else {
            0
        }
    } else {
        app.output_scroll
    };
    let lines = output_lines(&app.output_log, scroll, height);
    RunningView { title: text_of(&t), completed, total, progress_label: text_of(&label), scroll, lines }
}

// ---------------------------------------------------------------------------
// The help overlay
// ---------------------------------------------------------------------------

/// The navigation keys, with what they do.
pub const NAV_KEYS: [(&'static str, &'static str); 16] = [
    ("j / Down", "Move down"),
    ("k / Up", "Move up"),
    ("g / Home", "Jump to first"),
    ("G / End", "Jump to last"),
    ("f / PgDn", "Page down"),
    ("b / PgUp", "Page up"),
    ("Ctrl+d", "Half page down"),
    ("Ctrl+u", "Half page up"),
    ("h / l", "Focus left / right panel"),
    ("Tab", "Toggle panel"),
    ("Enter", "Run selected command"),
    ("/", "Filter packages"),
    ("t", "Cycle theme"),
    ("Esc", "Back / quit"),
    ("q", "Quit"),
    ("?", "Toggle this help"),
];

/// The melos commands, with what they do.
pub const MELOS_COMMANDS: [(&'static str, &'static str); 12] = [
    ("analyze", "Run dart analyze"),
    ("bootstrap", "Install dependencies"),
    ("build", "Build packages (Android/iOS)"),
    ("clean", "Clean build artifacts"),
    ("exec", "Run command in each package"),
    ("format", "Run dart format"),
    ("health", "Workspace health checks"),
    ("list", "List workspace packages"),
    ("publish", "Publish to pub.dev"),
    ("run", "Run named scripts"),
    ("test", "Run dart/flutter tests"),
    ("version", "Bump package versions"),
];

/// A column of the help overlay: its heading, a blank line, and each key
/// padded to sixteen columns with its description.
pub open spec fn key_lines_spec(header: Seq<char>, entries: Seq<(&'static str, &'static str)>) -> Seq<
    Seq<(Seq<char>, Tone, bool)>,
> {
    seq![one(header, Tone::Header, true), Seq::empty()] + entries.map_values(
        |e: (&'static str, &'static str)| seq![(" "@ + pad_right(e.0@, 16), Tone::Success, false), (e.1@, Tone::Text, false)],
    )
}

/// The lines of a column of the help overlay.
pub fn build_key_lines(header: &str, entries: &[(&'static str, &'static str)]) -> (r: Vec<Vec<Span>>)
    ensures
        lines_view(r@) == key_lines_spec(header@, entries@),
{
    let mut out: Vec<Vec<Span>> = Vec::new();
    out.push(one_line(owned(header), Tone::Header, true));
    out.push(blank_line());
    let ghost head = lines_view(out@);
    let mut i: usize = 0;
    while i < entries.len()
        invariant
            i <= entries@.len(),
            head == seq![one(header@, Tone::Header, true), Seq::<(Seq<char>, Tone, bool)>::empty()],
            lines_view(out@) == head + entries@.take(i as int).map_values(
                |e: (&'static str, &'static str)| seq![(" "@ + pad_right(e.0@, 16), Tone::Success, false), (e.1@, Tone::Text, false)],
            ),
        decreases entries@.len() - i,
    {
        let (k, d) = entries[i];
        let mut a = crate::text::to_chars(" ");
        let kv = crate::text::to_chars(k);
        crate::text::append_chars(&mut a, kv.as_slice());
        if kv.len() < 16 {
            spaces_to(&mut a, 16 - kv.len());
        }
        assert(a@ =~= " "@ + pad_right(k@, 16));
        let mut l: Vec<Span> = Vec::new();
        l.push(span(text_of(&a), Tone::Success, false));
        l.push(span(owned(d), Tone::Text, false));
        assert(line_view(l@) =~= seq![(" "@ + pad_right(k@, 16), Tone::Success, false), (d@, Tone::Text, false)]);
        assert(entries@[i as int] == (k, d));
        let ghost before = lines_view(out@);
        out.push(l);
        proof {
            assert(lines_view(out@) =~= before.push(seq![(" "@ + pad_right(k@, 16), Tone::Success, false), (d@, Tone::Text, false)]));
            assert(entries@.take(i + 1).map_values(
                |e: (&'static str, &'static str)| seq![(" "@ + pad_right(e.0@, 16), Tone::Success, false), (e.1@, Tone::Text, false)],
            ) =~= entries@.take(i as int).map_values(
                |e: (&'static str, &'static str)| seq![(" "@ + pad_right(e.0@, 16), Tone::Success, false), (e.1@, Tone::Text, false)],
            ).push(seq![(" "@ + pad_right(k@, 16), Tone::Success, false), (d@, Tone::Text, false)]));
        }
        i += 1;
    }
    assert(entries@.take(entries@.len() as int) =~= entries@);
    out
}

/// The help overlay: its title, the navigation column and the command
/// column.
pub fn help_overlay() -> (r: (String, Vec<Vec<Span>>, Vec<Vec<Span>>))
    ensures
        r.0@ == " Help "@,
        lines_view(r.1@) == key_lines_spec("Navigation"@, NAV_KEYS@),
        lines_view(r.2@) == key_lines_spec("Commands"@, MELOS_COMMANDS@),
{
    let nav = build_key_lines("Navigation", &NAV_KEYS);
    let cmds = build_key_lines("Commands", &MELOS_COMMANDS);
    (owned(" Help "), nav, cmds)
}

// ---------------------------------------------------------------------------
// The screen
// ---------------------------------------------------------------------------

/// What the body of the screen shows.
#[derive(Debug, Clone, Copy, PartialEq, Eq, Structural)]
pub enum Body {
    /// The package table and the command table side by side, with which of
    /// them has the focus.
    Panels { packages_focused: bool },
    /// The running command.
    Running,
    /// The health dashboard of a finished health run.
    Health,
    /// The results of a finished command.
    Results,
}

/// What the body shows in each state.
pub open spec fn body_spec(app: App) -> Body {
    match app.state {
        AppState::Idle => Body::Panels { packages_focused: app.active_panel == ActivePanel::Packages },
        AppState::Running => Body::Running,
        AppState::Done => if app.health_report is Some {
            Body::Health
        } else {
            Body::Results
        },
    }
}

/// What the body of the screen shows (see [`body_spec`]); the help overlay
/// and then the options overlay are drawn over it where they show.
pub fn body(app: &App) -> (r: Body)
    ensures
        r == body_spec(*app),
{
    match app.state {
        AppState::Idle => Body::Panels {
            packages_focused: match app.active_panel {
                ActivePanel::Packages => true,
                ActivePanel::Commands => false,
            },
        },
        AppState::Running => Body::Running,
        AppState::Done => if app.health_report.is_some() {
            Body::Health
        } else {
            Body::Results
        },
    }
}

} // verus!
