//! A calculator session: the stack engine together with the display mode,
//! which `mode` words query and switch, and the `help` request.

use vstd::prelude::*;

use crate::engine::{accepts_all, outcome_view, step, CalcState, Calculator, FloatOp};
use crate::error::{CalcError, ErrorView};
use crate::parser::{parse_line, parse_text, token_result_view, token_results_view, Cmd, Token, TokenView};

verus! {

/// How the stack is displayed.
#[derive(Debug, Clone, Copy, PartialEq, Eq, Structural)]
pub enum DisplayMode {
    /// All values on one line, bottom first.
    Horizontal,
    /// One value per line, each with its depth.
    Vertical,
}

impl Default for DisplayMode {
    /// The stack is shown on one line unless asked otherwise.
    fn default() -> (res: DisplayMode)
        ensures
            res == DisplayMode::Horizontal,
    {
        DisplayMode::Horizontal
    }
}

/// The name of a display mode, as the `mode` word takes and shows it.
pub open spec fn mode_name(m: DisplayMode) -> Seq<char> {
    match m {
        DisplayMode::Horizontal => "horizontal"@,
        DisplayMode::Vertical => "vertical"@,
    }
}

impl DisplayMode {
    /// The name of this display mode.
    pub fn name(&self) -> (res: String)
        ensures
            res@ == mode_name(*self),
    {
        match self {
            DisplayMode::Horizontal => String::from_str("horizontal"),
            DisplayMode::Vertical => String::from_str("vertical"),
        }
    }
}

/// Something that processing a line asks to show, apart from the stack.
#[derive(Debug, PartialEq)]
pub enum Notice {
    /// The name of the current display mode (asked for by a bare `mode`).
    CurrentMode(DisplayMode),
    /// An error that does not stop the line (an invalid `mode` argument).
    Error(CalcError),
}

/// The model of a [`Notice`].
pub enum NoticeView {
    CurrentMode(DisplayMode),
    Error(ErrorView),
}

impl View for Notice {
    type V = NoticeView;

    open spec fn view(&self) -> NoticeView {
        match self {
            Notice::CurrentMode(m) => NoticeView::CurrentMode(*m),
            Notice::Error(e) => NoticeView::Error(e@),
        }
    }
}

/// The models of a sequence of notices.
pub open spec fn notices_view(ns: Seq<Notice>) -> Seq<NoticeView> {
    ns.map_values(|n: Notice| n@)
}

/// The display mode after `mode` with argument `arg` in mode `m`, and what it shows:
/// no argument shows the current mode; `horizontal` and `vertical` switch to
/// that mode; any other argument is an invalid display mode, which changes nothing.
pub open spec fn mode_command(arg: Option<Seq<char>>, m: DisplayMode) -> (DisplayMode, Seq<
    NoticeView,
>) {
    match arg {
        None => (m, seq![NoticeView::CurrentMode(m)]),
        Some(a) => if a == "horizontal"@ {
            (DisplayMode::Horizontal, Seq::empty())
        } else if a == "vertical"@ {
            (DisplayMode::Vertical, Seq::empty())
        } else {
            (m, seq![NoticeView::Error(ErrorView::InvalidDisplayMode(a))])
        },
    }
}

/// Carries out a `mode` word with argument `arg`: switches `mode`, or
/// returns what to show.
pub fn handle_mode(arg: Option<String>, mode: &mut DisplayMode) -> (res: Option<Notice>)
    ensures
        ({
            let (m, shown) = mode_command(
                match arg {
                    Some(a) => Some(a@),
                    None => None,
                },
                *old(mode),
            );
            &&& *final(mode) == m
            &&& match res {
                Some(n) => shown == seq![n@],
                None => shown.len() == 0,
            }
        }),
{
    match arg {
        None => Some(Notice::CurrentMode(*mode)),
        Some(a) => {
            let horizontal = String::from_str("horizontal");
            let vertical = String::from_str("vertical");
            if a == horizontal {
                *mode = DisplayMode::Horizontal;
                None
            } else if a == vertical {
                *mode = DisplayMode::Vertical;
                None
            } else {
                Some(Notice::Error(CalcError::InvalidDisplayMode(a)))
            }
        },
    }
}

/// Processing the tokens `toks` of a line in a session takes the calculator
/// from `pre` to `post` and the display mode from `mode` to `post_mode`, with
/// outcome `res`, shows the notices `shown` in order, and shows the help text
/// afterwards when `show_help`. Mode words are handled by [`mode_command`];
/// `help` asks for the help text, which is shown once the line has been
/// processed without error or quit (`help_asked` says that it was asked for
/// earlier in the line); every other token is processed by the calculator,
/// and the line stops at the first error or at quit.
pub open spec fn session_run<E: Fn(FloatOp) -> u64>(
    eval: E,
    pre: CalcState,
    mode: DisplayMode,
    toks: Seq<Result<TokenView, ErrorView>>,
    help_asked: bool,
    post: CalcState,
    post_mode: DisplayMode,
    res: Result<bool, ErrorView>,
    shown: Seq<NoticeView>,
    show_help: bool,
) -> bool
    decreases toks.len(),
{
    if toks.len() == 0 {
        &&& post == pre
        &&& post_mode == mode
        &&& res == Ok::<bool, ErrorView>(false)
        &&& shown.len() == 0
        &&& show_help == help_asked
    } else {
        let rest = toks.drop_first();
        match toks[0] {
            Err(e) => {
                &&& post == pre
                &&& post_mode == mode
                &&& res == Err::<bool, ErrorView>(e)
                &&& shown.len() == 0
                &&& !show_help
            },
            Ok(TokenView::Mode(arg)) => {
                let (m, first) = mode_command(arg, mode);
                &&& first.len() <= shown.len()
                &&& shown.take(first.len() as int) == first
                &&& session_run(
                    eval,
                    pre,
                    m,
                    rest,
                    help_asked,
                    post,
                    post_mode,
                    res,
                    shown.skip(first.len() as int),
                    show_help,
                )
            },
            Ok(TokenView::Command(Cmd::Help)) => session_run(
                eval,
                pre,
                mode,
                rest,
                true,
                post,
                post_mode,
                res,
                shown,
                show_help,
            ),
            Ok(t) => exists|mid: CalcState, r: Result<bool, ErrorView>|
                #[trigger] step(eval, pre, t, mid, r) && if r == Ok::<bool, ErrorView>(false) {
                    session_run(
                        eval,
                        mid,
                        mode,
                        rest,
                        help_asked,
                        post,
                        post_mode,
                        res,
                        shown,
                        show_help,
                    )
                } else {
                    &&& post == mid
                    &&& post_mode == mode
                    &&& res == r
                    &&& shown.len() == 0
                    &&& !show_help
                },
        }
    }
}

/// What processing a line in a session gives besides the new state.
pub struct LineReport {
    /// `Ok(true)` if quit was requested, `Ok(false)` otherwise, or the error that stopped the line.
    pub outcome: Result<bool, CalcError>,
    /// What to show, in order, before the outcome.
    pub notices: Vec<Notice>,
    /// Whether to show the help text after the notices.
    pub show_help: bool,
}

/// Processes a line in a session: mode words switch or query `display_mode`,
/// `help` asks for the help text, and every other token goes to `calc`.
pub fn process_line<E: Fn(FloatOp) -> u64>(
    line: &str,
    calc: &mut Calculator,
    display_mode: &mut DisplayMode,
    eval: &E,
) -> (res: LineReport)
    requires
        accepts_all(*eval),
    ensures
        session_run(
            *eval,
            old(calc)@,
            *old(display_mode),
            parse_text(line@),
            false,
            final(calc)@,
            *final(display_mode),
            outcome_view(res.outcome),
            notices_view(res.notices@),
            res.show_help,
        ),
{
    let mut tokens = parse_line(line);
    let ghost toks = parse_text(line@);
    let ghost start = calc@;
    let ghost start_mode = *display_mode;
    let ghost mut i: int = 0;
    let mut notices: Vec<Notice> = Vec::new();
    let mut help_asked = false;
    assert(toks.skip(0) =~= toks);
    assert forall|post: CalcState, pm: DisplayMode, r: Result<bool, ErrorView>, sh: Seq<NoticeView>, h: bool|
        #[trigger] session_run(*eval, calc@, *display_mode, toks.skip(0), false, post, pm, r, sh, h)
        implies session_run(*eval, start, start_mode, toks, false, post, pm, r, notices_view(notices@) + sh, h) by {
        assert(notices_view(notices@) + sh =~= sh);
    }
    while tokens.len() > 0
        invariant
            accepts_all(*eval),
            toks == parse_text(line@),
            start == old(calc)@,
            start_mode == *old(display_mode),
            0 <= i <= toks.len(),
            token_results_view(tokens@) == toks.skip(i),
            forall|post: CalcState, pm: DisplayMode, r: Result<bool, ErrorView>, sh: Seq<NoticeView>, h: bool|
                #[trigger] session_run(*eval, calc@, *display_mode, toks.skip(i), help_asked, post, pm, r, sh, h)
                    ==> session_run(*eval, start, start_mode, toks, false, post, pm, r, notices_view(notices@) + sh, h),
        decreases tokens@.len(),
    {
        let ghost rest = toks.skip(i);
        let ghost pre = calc@;
        let ghost pre_mode = *display_mode;
        let ghost pre_notices = notices_view(notices@);
        let ghost pre_help = help_asked;
        assert(rest[0] == token_result_view(tokens@[0]));
        let next = tokens.remove(0);
        assert(token_results_view(tokens@) =~= rest.drop_first());
        assert(rest.drop_first() =~= toks.skip(i + 1));
        match next {
            Err(e) => {
                let report = LineReport { outcome: Err(e), notices, show_help: false };
                assert(session_run(*eval, pre, pre_mode, rest, pre_help, pre, pre_mode,
                    outcome_view(report.outcome), Seq::empty(), false));
                assert(pre_notices + Seq::<NoticeView>::empty() =~= pre_notices);
                return report;
            },
            Ok(Token::Mode(arg)) => {
                let ghost arg_view = match &arg {
                    Some(a) => Some(a@),
                    None => None::<Seq<char>>,
                };
                assert(rest[0] == Ok::<TokenView, ErrorView>(TokenView::Mode(arg_view)));
                let shown = handle_mode(arg, display_mode);
                let ghost first = mode_command(arg_view, pre_mode).1;
                match shown {
                    Some(n) => {
                        notices.push(n);
                    },
                    None => {},
                }
                assert(notices_view(notices@) =~= pre_notices + first);
                assert forall|post: CalcState, pm: DisplayMode, r: Result<bool, ErrorView>, sh: Seq<NoticeView>, h: bool|
                    #[trigger] session_run(*eval, calc@, *display_mode, toks.skip(i + 1), help_asked, post, pm, r, sh, h)
                    implies session_run(*eval, start, start_mode, toks, false, post, pm, r, notices_view(notices@) + sh, h) by {
                    assert((first + sh).take(first.len() as int) =~= first);
                    assert((first + sh).skip(first.len() as int) =~= sh);
                    assert(session_run(*eval, pre, pre_mode, rest, pre_help, post, pm, r, first + sh, h));
                    assert(pre_notices + (first + sh) =~= notices_view(notices@) + sh);
                }
                proof {
                    i = i + 1;
                }
            },
            Ok(Token::Command(Cmd::Help)) => {
                help_asked = true;
                assert forall|post: CalcState, pm: DisplayMode, r: Result<bool, ErrorView>, sh: Seq<NoticeView>, h: bool|
                    #[trigger] session_run(*eval, calc@, *display_mode, toks.skip(i + 1), help_asked, post, pm, r, sh, h)
                    implies session_run(*eval, start, start_mode, toks, false, post, pm, r, notices_view(notices@) + sh, h) by {
                    assert(session_run(*eval, pre, pre_mode, rest, pre_help, post, pm, r, sh, h));
                }
                proof {
                    i = i + 1;
                }
            },
            Ok(token) => {
                let ghost t = token@;
                let r = calc.process_token(token, eval);
                let ghost rv = outcome_view(r);
                match r {
                    Ok(false) => {
                        assert forall|post: CalcState, pm: DisplayMode, q: Result<bool, ErrorView>, sh: Seq<NoticeView>, h: bool|
                            #[trigger] session_run(*eval, calc@, *display_mode, toks.skip(i + 1), help_asked, post, pm, q, sh, h)
                            implies session_run(*eval, start, start_mode, toks, false, post, pm, q, notices_view(notices@) + sh, h) by {
                            assert(step(*eval, pre, t, calc@, rv));
                            assert(session_run(*eval, pre, pre_mode, rest, pre_help, post, pm, q, sh, h));
                        }
                        proof {
                            i = i + 1;
                        }
                    },
                    _ => {
                        let report = LineReport { outcome: r, notices, show_help: false };
                        assert(step(*eval, pre, t, calc@, rv));
                        assert(session_run(*eval, pre, pre_mode, rest, pre_help, calc@, pre_mode, rv,
                            Seq::empty(), false));
                        assert(pre_notices + Seq::<NoticeView>::empty() =~= pre_notices);
                        return report;
                    },
                }
            },
        }
    }
    let report = LineReport { outcome: Ok(false), notices, show_help: help_asked };
    assert(session_run(*eval, calc@, *display_mode, toks.skip(i), help_asked, calc@, *display_mode,
        Ok::<bool, ErrorView>(false), Seq::empty(), help_asked));
    assert(notices_view(report.notices@) + Seq::<NoticeView>::empty() =~= notices_view(report.notices@));
    report
}

} // verus!
