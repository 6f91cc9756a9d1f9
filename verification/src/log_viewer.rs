//! The log viewer: lines that scroll, and follow the end while that is wanted.
use vstd::prelude::*;
use crate::display::{
    at_least, bold, colored, greater, lemma_lines_push, less, lesser, line_of_span, lines_model,
    minus, span, Area, Color, Line, SpanModel, Style,
};
use crate::text::{chars_contain, chars_of, decimal, decimal_usize, has_substring};

verus! {

broadcast use lemma_lines_push;

/// The log viewer.
#[derive(Debug)]
pub struct LogViewer {
    pub visible: bool,
    pub pod_name: String,
    pub namespace: String,
    pub container_name: String,
    pub lines: Vec<String>,
    /// The first line that is shown.
    pub scroll_offset: usize,
    /// Whether new lines are scrolled into view.
    pub auto_follow: bool,
    pub cluster_name: String,
}

/// What moves while logs are read.
#[verifier::ext_equal]
pub struct ViewerModel {
    pub visible: bool,
    pub lines: Seq<String>,
    pub scroll_offset: usize,
    pub auto_follow: bool,
}

/// The last line, or the first where there is none.
pub open spec fn last_line(lines: Seq<String>) -> int {
    less(lines.len() as int, 1)
}

/// A viewer after a line more.
pub open spec fn with_line(m: ViewerModel, line: String) -> ViewerModel {
    ViewerModel {
        lines: m.lines.push(line),
        scroll_offset: if m.auto_follow {
            m.lines.len() as usize
        } else {
            m.scroll_offset
        },
        ..m
    }
}

/// Half of what is visible, but at least one line.
pub open spec fn half_page(viewport_height: usize) -> int {
    greater(viewport_height as int / 2, 1)
}

/// Whether two viewers show the logs of the same container.
pub open spec fn same_source(a: LogViewer, b: LogViewer) -> bool {
    a.pod_name == b.pod_name && a.namespace == b.namespace && a.container_name == b.container_name
        && a.cluster_name == b.cluster_name
}

impl LogViewer {
    /// What moves while logs are read.
    pub open spec fn state(self) -> ViewerModel {
        ViewerModel {
            visible: self.visible,
            lines: self.lines@,
            scroll_offset: self.scroll_offset,
            auto_follow: self.auto_follow,
        }
    }

    /// Whether the first line that is shown is one of the log.
    pub open spec fn wf(self) -> bool {
        self.scroll_offset <= last_line(self.lines@)
    }

    /// A hidden viewer.
    pub fn new() -> (r: Self)
        ensures
            r.state() == (ViewerModel {
                visible: false,
                lines: Seq::empty(),
                scroll_offset: 0,
                auto_follow: true,
            }),
            r.pod_name@.len() == 0,
            r.namespace@.len() == 0,
            r.container_name@.len() == 0,
            r.cluster_name@.len() == 0,
            r.wf(),
    {
        let v = LogViewer {
            visible: false,
            pod_name: String::new(),
            namespace: String::new(),
            container_name: String::new(),
            lines: Vec::new(),
            scroll_offset: 0,
            auto_follow: true,
            cluster_name: String::new(),
        };
        proof {
            assert(v.lines@ =~= Seq::empty());
        }
        v
    }

    /// Opens the viewer for a container, with no lines yet.
    pub fn open(
        &mut self,
        pod_name: &str,
        namespace: &str,
        container_name: &str,
        cluster_name: &str,
    )
        ensures
            final(self).state() == (ViewerModel {
                visible: true,
                lines: Seq::empty(),
                scroll_offset: 0,
                auto_follow: true,
            }),
            final(self).pod_name@ == pod_name@,
            final(self).namespace@ == namespace@,
            final(self).container_name@ == container_name@,
            final(self).cluster_name@ == cluster_name@,
            final(self).wf(),
    {
        self.pod_name = pod_name.to_owned();
        self.namespace = namespace.to_owned();
        self.container_name = container_name.to_owned();
        self.cluster_name = cluster_name.to_owned();
        self.lines = Vec::new();
        self.scroll_offset = 0;
        self.auto_follow = true;
        self.visible = true;
        proof {
            assert(self.lines@ =~= Seq::empty());
        }
    }

    /// Closes the viewer and drops its lines.
    pub fn close(&mut self)
        ensures
            final(self).state() == (ViewerModel {
                visible: false,
                lines: Seq::empty(),
                scroll_offset: 0,
                ..old(self).state()
            }),
            same_source(*final(self), *old(self)),
            final(self).wf(),
    {
        self.visible = false;
        self.lines = Vec::new();
        self.scroll_offset = 0;
        proof {
            assert(self.lines@ =~= Seq::empty());
        }
    }

    /// Adds a line, and scrolls to it while following.
    pub fn push_line(&mut self, line: String)
        ensures
            final(self).state() == with_line(old(self).state(), line),
            same_source(*final(self), *old(self)),
            old(self).wf() ==> final(self).wf(),
    {
        let n: usize = self.lines.len();
        self.lines.push(line);
        if self.auto_follow {
            self.scroll_offset = n;
        }
    }

    /// Scrolls up by a line and stops following.
    pub fn scroll_up(&mut self)
        ensures
            final(self).state() == (ViewerModel {
                auto_follow: false,
                scroll_offset: less(old(self).scroll_offset as int, 1) as usize,
                ..old(self).state()
            }),
            same_source(*final(self), *old(self)),
            old(self).wf() ==> final(self).wf(),
    {
        self.auto_follow = false;
        if self.scroll_offset > 0 {
            self.scroll_offset = self.scroll_offset - 1;
        }
    }

    /// Scrolls down by a line, as far as the last one.
    pub fn scroll_down(&mut self)
        ensures
            final(self).state() == (ViewerModel {
                scroll_offset: if old(self).scroll_offset < last_line(old(self).lines@) {
                    (old(self).scroll_offset + 1) as usize
                } else {
                    old(self).scroll_offset
                },
                ..old(self).state()
            }),
            same_source(*final(self), *old(self)),
            old(self).wf() ==> final(self).wf(),
    {
        if self.scroll_offset < self.last() {
            self.scroll_offset = self.scroll_offset + 1;
        }
    }

    /// Scrolls to the first line and stops following.
    pub fn jump_to_top(&mut self)
        ensures
            final(self).state() == (ViewerModel {
                auto_follow: false,
                scroll_offset: 0,
                ..old(self).state()
            }),
            same_source(*final(self), *old(self)),
            final(self).wf(),
    {
        self.auto_follow = false;
        self.scroll_offset = 0;
    }

    /// Scrolls to the last line and follows.
    pub fn jump_to_bottom(&mut self)
        ensures
            final(self).state() == (ViewerModel {
                auto_follow: true,
                scroll_offset: last_line(old(self).lines@) as usize,
                ..old(self).state()
            }),
            same_source(*final(self), *old(self)),
            final(self).wf(),
    {
        self.auto_follow = true;
        self.scroll_offset = self.last();
    }

    /// Starts or stops following; starting scrolls to the last line.
    pub fn toggle_follow(&mut self)
        ensures
            final(self).state() == (ViewerModel {
                auto_follow: !old(self).auto_follow,
                scroll_offset: if old(self).auto_follow {
                    old(self).scroll_offset
                } else {
                    last_line(old(self).lines@) as usize
                },
                ..old(self).state()
            }),
            same_source(*final(self), *old(self)),
            old(self).wf() ==> final(self).wf(),
    {
        self.auto_follow = !self.auto_follow;
        if self.auto_follow {
            self.scroll_offset = self.last();
        }
    }

    /// Scrolls up by half of what is visible and stops following.
    pub fn page_up(&mut self, viewport_height: usize)
        ensures
            final(self).state() == (ViewerModel {
                auto_follow: false,
                scroll_offset: less(
                    old(self).scroll_offset as int,
                    half_page(viewport_height),
                ) as usize,
                ..old(self).state()
            }),
            same_source(*final(self), *old(self)),
            old(self).wf() ==> final(self).wf(),
    {
        self.auto_follow = false;
        let jump: usize = half_of(viewport_height);
        self.scroll_offset = if self.scroll_offset >= jump {
            self.scroll_offset - jump
        } else {
            0
        };
    }

    /// Scrolls down by half of what is visible, as far as the last line.
    pub fn page_down(&mut self, viewport_height: usize)
        requires
            old(self).scroll_offset + half_page(viewport_height) <= usize::MAX,
        ensures
            final(self).state() == (ViewerModel {
                scroll_offset: lesser(
                    old(self).scroll_offset + half_page(viewport_height),
                    last_line(old(self).lines@),
                ) as usize,
                ..old(self).state()
            }),
            same_source(*final(self), *old(self)),
            final(self).wf(),
    {
        let jump: usize = half_of(viewport_height);
        let target: usize = self.scroll_offset + jump;
        let last: usize = self.last();
        self.scroll_offset = if target <= last {
            target
        } else {
            last
        };
    }

    fn last(&self) -> (r: usize)
        ensures
            r == last_line(self.lines@),
    {
        let n: usize = self.lines.len();
        if n >= 1 {
            n - 1
        } else {
            0
        }
    }
}

/// Half of what is visible, but at least one line.
fn half_of(viewport_height: usize) -> (r: usize)
    ensures
        r == half_page(viewport_height),
{
    let half: usize = viewport_height / 2;
    if half >= 1 {
        half
    } else {
        1
    }
}

impl Default for LogViewer {
    fn default() -> (r: Self)
        ensures
            r.state() == (ViewerModel {
                visible: false,
                lines: Seq::empty(),
                scroll_offset: 0,
                auto_follow: true,
            }),
            r.pod_name@.len() == 0,
            r.namespace@.len() == 0,
            r.container_name@.len() == 0,
            r.cluster_name@.len() == 0,
            r.wf(),
    {
        LogViewer::new()
    }
}

/// While a viewer follows, a line that comes is the one that it scrolls to.
pub proof fn law_follow_shows_last(m: ViewerModel, line: String)
    requires
        m.auto_follow,
        m.lines.len() < usize::MAX,
    ensures
        with_line(m, line).scroll_offset == last_line(with_line(m, line).lines),
        with_line(m, line).auto_follow,
{
}

/// A line that comes while a viewer does not follow leaves what is shown where
/// it is.
pub proof fn law_reading_is_not_disturbed(m: ViewerModel, line: String)
    requires
        !m.auto_follow,
    ensures
        with_line(m, line).scroll_offset == m.scroll_offset,
        with_line(m, line).lines.take(m.lines.len() as int) == m.lines,
{
    assert(m.lines.push(line).take(m.lines.len() as int) =~= m.lines);
}

// ---------------------------------------------------------------------------
// Drawing
// ---------------------------------------------------------------------------

/// What is drawn of the viewer.
#[derive(Debug)]
pub struct LogFrame {
    pub title: String,
    /// Where the popup stands, with its border.
    pub popup: Area,
    /// Where the lines stand.
    pub inner: Area,
    pub lines: Vec<Line>,
    /// Where the footer stands.
    pub footer_area: Area,
    pub footer: Line,
}

/// The popup on a screen: all of it but a margin.
pub open spec fn log_popup(area: Area) -> Area {
    let w = greater(less(area.width as int, 4), 40);
    let h = greater(less(area.height as int, 4), 10);
    Area {
        x: (area.x + less(area.width as int, w) / 2) as u16,
        y: (area.y + less(area.height as int, h) / 2) as u16,
        width: w as u16,
        height: h as u16,
    }
}

/// Where the lines stand in a popup.
pub open spec fn log_inner(popup: Area) -> Area {
    Area {
        x: (popup.x + 1) as u16,
        y: (popup.y + 1) as u16,
        width: (popup.width - 2) as u16,
        height: (popup.height - 3) as u16,
    }
}

/// The line up to which lines are shown.
pub open spec fn shown_end(v: LogViewer, height: int) -> int {
    lesser(v.scroll_offset + height, v.lines@.len() as int)
}

/// The heading of the viewer.
pub open spec fn log_title(v: LogViewer) -> Seq<char> {
    " Logs: "@ + v.namespace@ + "/"@ + v.pod_name@ + " ("@ + v.container_name@ + ") "@ + (
    if v.auto_follow {
        " [FOLLOW]"@
    } else {
        Seq::empty()
    }) + " "@
}

/// The colour of a line, by the words in it.
pub open spec fn log_color(line: Seq<char>) -> Color {
    if has_substring(line, "ERROR"@) || has_substring(line, "error"@) || has_substring(
        line,
        "FATAL"@,
    ) {
        Color::BrightRed
    } else if has_substring(line, "WARN"@) || has_substring(line, "warn"@) {
        Color::BrightYellow
    } else {
        Color::Fg
    }
}

/// The lines that are shown.
pub open spec fn log_lines(v: LogViewer, height: int) -> Seq<Seq<SpanModel>> {
    if v.lines@.len() == 0 {
        seq![line_of_span("  Waiting for logs..."@, colored(Color::Fg4))]
    } else {
        Seq::new(
            less(shown_end(v, height), v.scroll_offset as int) as nat,
            |i: int|
                line_of_span(
                    v.lines@[v.scroll_offset + i]@,
                    colored(log_color(v.lines@[v.scroll_offset + i]@)),
                ),
        )
    }
}

/// What stands below the lines: the keys, and how far the log is read.
pub open spec fn log_footer(v: LogViewer, height: int) -> Seq<SpanModel> {
    seq![
        span(
            " ↑↓/jk: scroll  g/G: top/bottom  f: follow  ESC: close"@,
            colored(Color::Fg4),
        ),
        span(
            if v.lines@.len() > 0 {
                " "@ + decimal(shown_end(v, height) as nat) + "/"@ + decimal(v.lines@.len())
                    + " "@
            } else {
                " 0/0 "@
            },
            bold(Color::BrightAqua),
        ),
    ]
}

fn color_of_line(line: &str) -> (r: Color)
    ensures
        r == log_color(line@),
{
    let v = chars_of(line);
    if chars_contain(&v, &chars_of("ERROR")) || chars_contain(&v, &chars_of("error"))
        || chars_contain(&v, &chars_of("FATAL")) {
        Color::BrightRed
    } else if chars_contain(&v, &chars_of("WARN")) || chars_contain(&v, &chars_of("warn")) {
        Color::BrightYellow
    } else {
        Color::Fg
    }
}

impl LogViewer {
    fn build_title(&self) -> (r: String)
        ensures
            r@ == log_title(*self),
    {
        let mut title = " Logs: ".to_owned();
        title.append(self.namespace.as_str());
        title.append("/");
        title.append(self.pod_name.as_str());
        title.append(" (");
        title.append(self.container_name.as_str());
        title.append(") ");
        if self.auto_follow {
            title.append(" [FOLLOW]");
        } else {
            proof {
                assert(title@ + Seq::<char>::empty() =~= title@);
            }
        }
        title.append(" ");
        title
    }

    fn build_lines(&self, end: usize, height: usize) -> (r: Vec<Line>)
        requires
            end == shown_end(*self, height as int),
        ensures
            lines_model(r@) == log_lines(*self, height as int),
    {
        let ghost all = log_lines(*self, height as int);
        let mut out: Vec<Line> = Vec::new();
        if self.lines.len() == 0 {
            out.push(
                Line::of("  Waiting for logs...".to_owned(), Style::colored(Color::Fg4)),
            );
            proof {
                assert(lines_model(out@) =~= all);
            }
            return out;
        }
        let start: usize = self.scroll_offset;
        let mut i: usize = start;
        proof {
            assert(lines_model(out@) =~= all.take(0));
        }
        while i < end
            invariant
                start <= i,
                start == self.scroll_offset,
                i <= end || i == start,
                end == shown_end(*self, height as int),
                self.lines@.len() > 0,
                all == log_lines(*self, height as int),
                lines_model(out@) == all.take(i - start),
            decreases end - i,
        {
            let line = self.lines[i].as_str();
            out.push(Line::of(self.lines[i].clone(), Style::colored(color_of_line(line))));
            proof {
                assert(all.take(i - start).push(all[i - start]) =~= all.take(i + 1 - start));
            }
            i += 1;
        }
        proof {
            assert(all.take(i - start) =~= all);
        }
        out
    }

    fn build_footer(&self, end: usize, height: usize) -> (r: Line)
        requires
            end == shown_end(*self, height as int),
        ensures
            r@ == log_footer(*self, height as int),
    {
        let position = if self.lines.len() > 0 {
            let mut s = " ".to_owned();
            s.append(decimal_usize(end).as_str());
            s.append("/");
            s.append(decimal_usize(self.lines.len()).as_str());
            s.append(" ");
            s
        } else {
            " 0/0 ".to_owned()
        };
        let mut footer = Line::of(
            " ↑↓/jk: scroll  g/G: top/bottom  f: follow  ESC: close".to_owned(),
            Style::colored(Color::Fg4),
        );
        footer.add_styled(position, Style::bold(Color::BrightAqua));
        proof {
            assert(footer@ =~= log_footer(*self, height as int));
        }
        footer
    }

    /// Lays the viewer out on the screen. Nothing is drawn while it is hidden.
    pub fn render(&self, area: Area) -> (r: Option<LogFrame>)
        requires
            self.visible ==> area.x + greater(area.width as int, 40) <= u16::MAX,
            self.visible ==> area.y + greater(area.height as int, 10) <= u16::MAX,
        ensures
            r is Some == self.visible,
            r is Some ==> {
                let popup = log_popup(area);
                let inner = log_inner(popup);
                &&& r->0.title@ == log_title(*self)
                &&& r->0.popup == popup
                &&& r->0.inner == inner
                &&& lines_model(r->0.lines@) == log_lines(*self, inner.height as int)
                &&& r->0.footer_area == (Area {
                    x: (popup.x + 1) as u16,
                    y: (popup.y + popup.height - 2) as u16,
                    width: (popup.width - 2) as u16,
                    height: 1,
                })
                &&& r->0.footer@ == log_footer(*self, inner.height as int)
            },
    {
        if !self.visible {
            return None;
        }
        let width: u16 = at_least(minus(area.width, 4), 40);
        let height: u16 = at_least(minus(area.height, 4), 10);
        let x: u16 = area.x + minus(area.width, width) / 2;
        let y: u16 = area.y + minus(area.height, height) / 2;
        let popup = Area { x, y, width, height };
        let inner = Area { x: x + 1, y: y + 1, width: minus(width, 2), height: minus(height, 3) };
        let viewport: usize = inner.height as usize;
        let total: usize = self.lines.len();
        let end: usize = if self.scroll_offset < total && viewport <= total - self.scroll_offset {
            self.scroll_offset + viewport
        } else {
            total
        };
        Some(
            LogFrame {
                title: self.build_title(),
                popup,
                inner,
                lines: self.build_lines(end, viewport),
                footer_area: Area {
                    x: x + 1,
                    y: y + minus(height, 2),
                    width: minus(width, 2),
                    height: 1,
                },
                footer: self.build_footer(end, viewport),
            },
        )
    }
}

} // verus!
