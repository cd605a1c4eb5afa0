//! Dialogs on top of the fullscreen interface: a choice of models, and help on
//! keys. At most one is open, and it gets all keys.
use vstd::prelude::*;

use crate::config::{opt_view, ResolvedConfig};
use crate::style::{
    in_bold, in_color, line_of, line_views, one_line, plain_line, push_line, push_span, styled,
    styled_line,
};
use crate::style::{Alignment, Color, Line, LineView, Paragraph, ParagraphView, Span, Style};
use crate::text::{chars_of, repeat, repeated, views};
use crate::tui::area::{centered, centered_rect, row_layout, rows, Rect};
use crate::tui::draw::{draw_views, push_draw, Draw, DrawView};
use crate::tui::keymap::Action;

verus! {

/// A simple list-based dialog for model selection.
#[derive(Debug)]
pub struct ModelDialog {
    pub models: Vec<String>,
    pub selected: usize,
    /// The item that the list on the screen marks.
    pub list_selected: Option<usize>,
    /// The first item that the list on the screen shows.
    pub list_offset: usize,
}

/// What a model dialog holds.
#[verifier::ext_equal]
pub struct ModelDialogView {
    pub models: Seq<Seq<char>>,
    pub selected: int,
    pub list_selected: Option<usize>,
    pub list_offset: usize,
}

impl View for ModelDialog {
    type V = ModelDialogView;

    open spec fn view(&self) -> ModelDialogView {
        ModelDialogView {
            models: views(self.models@),
            selected: self.selected as int,
            list_selected: self.list_selected,
            list_offset: self.list_offset,
        }
    }
}

impl ModelDialogView {
    /// One of the models is selected, and the list marks it.
    pub open spec fn well_formed(self) -> bool {
        &&& 0 <= self.selected < self.models.len()
        &&& self.list_selected == Some(self.selected as usize)
    }

    /// The dialog with another selection.
    pub open spec fn at(self, selected: int) -> ModelDialogView {
        ModelDialogView { selected, list_selected: Some(selected as usize), ..self }
    }

    /// The dialog after a key.
    pub open spec fn moved(self, action: Action) -> ModelDialogView {
        if action == Action::DialogUp && self.selected > 0 {
            self.at(self.selected - 1)
        } else if action == Action::DialogDown && self.selected + 1 < self.models.len() {
            self.at(self.selected + 1)
        } else {
            self
        }
    }

    /// What a key chooses, if anything.
    pub open spec fn chosen(self, action: Action) -> Option<Seq<char>> {
        if action == Action::DialogConfirm {
            Some(self.models[self.selected])
        } else {
            None
        }
    }
}

/// The choice that a dialog starts with: the model in use and those on offer.
pub open spec fn fresh_choice(model: Seq<char>) -> ModelDialogView {
    ModelDialogView {
        models: seq![model, "deepseek-v4-flash"@, "deepseek-v4-pro"@],
        selected: 0,
        list_selected: Some(0usize),
        list_offset: 0,
    }
}

impl ModelDialog {
    pub fn new<F>(cfg: &ResolvedConfig<F>) -> (r: Self)
        ensures
            r@ == fresh_choice(cfg.model@),
            r@.well_formed(),
    {
        let models = vec![
            cfg.model.clone(),
            "deepseek-v4-flash".to_owned(),
            "deepseek-v4-pro".to_owned(),
        ];
        let r = ModelDialog { models, selected: 0, list_selected: Some(0), list_offset: 0 };
        assert(r@.models == fresh_choice(cfg.model@).models);
        r
    }

    pub fn current_model(&self) -> (r: &str)
        requires
            self@.well_formed(),
        ensures
            r@ == self@.models[self@.selected],
    {
        self.models[self.selected].as_str()
    }

    pub fn handle_key(&mut self, action: Action) -> (r: Option<String>)
        requires
            old(self)@.well_formed(),
        ensures
            final(self)@ == old(self)@.moved(action),
            final(self)@.well_formed(),
            opt_view(r) == old(self)@.chosen(action),
    {
        match action {
            Action::DialogUp => {
                if self.selected > 0 {
                    self.selected = self.selected - 1;
                    self.list_selected = Some(self.selected);
                }
                None
            },
            Action::DialogDown => {
                if self.models.len() - self.selected > 1 {
                    self.selected = self.selected + 1;
                    self.list_selected = Some(self.selected);
                }
                None
            },
            Action::DialogConfirm => Some(self.models[self.selected].clone()),
            _ => None,
        }
    }

    /// What there is to draw over an area, given where its title and its list go.
    pub fn draws(&self, area: Rect, title: Rect, list: Rect) -> (r: Vec<Draw>)
        ensures
            draw_views(r@) == choice_draws(self@, area, title, list),
    {
        let ghost all = choice_items(self@);
        let mut items: Vec<Line> = Vec::new();
        let mut i: usize = 0;
        assert(line_views(items@) == all.take(0));
        while i < self.models.len()
            invariant
                i <= self.models@.len(),
                all == choice_items(self@),
                line_views(items@) == all.take(i as int),
            decreases self.models@.len() - i,
        {
            let mut s = "  ".to_owned();
            s.append(self.models[i].as_str());
            s.append("  ");
            let style = if i == self.selected {
                Style::bold(Color::LightCyan)
            } else {
                Style::fg(Color::White)
            };
            push_line(&mut items, Line::styled(s, style));
            assert(all.take(i + 1) == all.take(i as int).push(all[i as int]));
            i += 1;
        }
        assert(all.take(all.len() as int) == all);
        let mut out: Vec<Draw> = Vec::new();
        push_draw(&mut out, Draw::Erase(area));
        push_draw(&mut out, Draw::Text { area: title, text: heading(" Switch Model ") });
        push_draw(
            &mut out,
            Draw::Choices {
                area: list,
                items,
                marked: self.list_selected,
                offset: self.list_offset,
            },
        );
        assert(draw_views(out@) == choice_draws(self@, area, title, list));
        out
    }

    /// What there is to draw over an area.
    pub fn render(&self, area: Rect) -> (r: Vec<Draw>)
        ensures
            shows_choice(self@, area, draw_views(r@)),
    {
        let length: [u16; 1] = [1];
        let none: [u16; 0] = [];
        let parts = rows(centered_rect(area, 44, 7), 1, 2, &length, &none);
        assert(length@ == seq![1u16]);
        assert(none@ == Seq::<u16>::empty());
        self.draws(area, parts[0], parts[1])
    }
}

/// The heading of a dialog.
pub open spec fn heading_view(text: Seq<char>) -> ParagraphView {
    one_line(styled_line(text, in_bold(Color::LightCyan)), Alignment::Center)
}

fn heading(text: &str) -> (r: Paragraph)
    ensures
        r@ == heading_view(text@),
{
    Paragraph::of_line(
        Line::styled(text.to_owned(), Style::bold(Color::LightCyan)),
        Alignment::Center,
    )
}

/// The items of a choice: the selected one stands out.
pub open spec fn choice_items(d: ModelDialogView) -> Seq<LineView> {
    Seq::new(
        d.models.len(),
        |i: int|
            styled_line(
                "  "@ + d.models[i] + "  "@,
                if i == d.selected {
                    in_bold(Color::LightCyan)
                } else {
                    in_color(Color::White)
                },
            ),
    )
}

/// What there is to draw of a choice.
pub open spec fn choice_draws(d: ModelDialogView, area: Rect, title: Rect, list: Rect) -> Seq<
    DrawView,
> {
    seq![
        DrawView::Erase(area),
        DrawView::Text(title, heading_view(" Switch Model "@)),
        DrawView::Choices(list, choice_items(d), d.list_selected, d.list_offset),
    ]
}

/// `draws` is a choice over an area, its title and its list in rows inside margins.
pub open spec fn shows_choice(d: ModelDialogView, area: Rect, draws: Seq<DrawView>) -> bool {
    exists|parts: Seq<Rect>| #[trigger]
        row_layout(centered(area, 44, 7), 1, 2, seq![1u16], seq![], parts) && draws
            == choice_draws(d, area, parts[0], parts[1])
}

/// Help dialog showing keybindings.
#[derive(Debug, Clone, Copy, PartialEq, Eq, Structural)]
pub struct HelpDialog;

/// The keys and commands, and what they do.
pub open spec fn help_entries() -> Seq<(Seq<char>, Seq<char>)> {
    seq![
        ("Enter"@, "Submit"@),
        ("Shift+Enter"@, "Newline"@),
        ("Ctrl+C"@, "Cancel / Quit (×2)"@),
        ("Ctrl+D"@, "Quit"@),
        ("Ctrl+K/J"@, "Scroll up/down"@),
        ("PgUp/PgDn"@, "Scroll page"@),
        ("Home/End"@, "Scroll top/bottom"@),
        ("/model [name]"@, "Switch model"@),
        ("/provider"@, "Show provider"@),
        ("/params"@, "Show parameters"@),
        ("/clear"@, "Clear history"@),
        ("/help"@, "Show this help"@),
        ("/exit /quit"@, "Exit"@),
    ]
}

fn help_keys() -> (r: Vec<(&'static str, &'static str)>)
    ensures
        r@.map_values(|e: (&'static str, &'static str)| (e.0@, e.1@)) == help_entries(),
{
    let r = vec![
        ("Enter", "Submit"),
        ("Shift+Enter", "Newline"),
        ("Ctrl+C", "Cancel / Quit (×2)"),
        ("Ctrl+D", "Quit"),
        ("Ctrl+K/J", "Scroll up/down"),
        ("PgUp/PgDn", "Scroll page"),
        ("Home/End", "Scroll top/bottom"),
        ("/model [name]", "Switch model"),
        ("/provider", "Show provider"),
        ("/params", "Show parameters"),
        ("/clear", "Clear history"),
        ("/help", "Show this help"),
        ("/exit /quit", "Exit"),
    ];
    assert(r@.map_values(|e: (&'static str, &'static str)| (e.0@, e.1@)) == help_entries());
    r
}

/// Text filled up with spaces to `n` characters.
pub open spec fn padded(text: Seq<char>, n: nat) -> Seq<char> {
    if text.len() < n {
        text + repeated(' ', (n - text.len()) as nat)
    } else {
        text
    }
}

fn pad(text: &str, n: usize) -> (r: String)
    ensures
        r@ == padded(text@, n as nat),
{
    let len = chars_of(text).len();
    let mut s = text.to_owned();
    if len < n {
        s.append(repeat(' ', n - len).as_str());
    }
    s
}

/// A line of the help.
pub open spec fn help_line(entry: (Seq<char>, Seq<char>)) -> LineView {
    line_of(
        seq![
            styled("  "@ + padded(entry.0, 14), in_bold(Color::LightCyan)),
            styled(entry.1, in_color(Color::DarkGray)),
        ],
    )
}

/// The lines of the help, a blank one above and below.
pub open spec fn help_lines() -> Seq<LineView> {
    seq![plain_line(seq![])] + help_entries().map_values(
        |e: (Seq<char>, Seq<char>)| help_line(e),
    ) + seq![plain_line(seq![])]
}

/// What there is to draw of the help.
pub open spec fn help_draws(area: Rect, title: Rect, body: Rect) -> Seq<DrawView> {
    seq![
        DrawView::Erase(area),
        DrawView::Text(title, heading_view(" Keybindings "@)),
        DrawView::Framed(body, help_lines()),
    ]
}

/// `draws` is the help over an area, its title and its body in rows inside margins.
pub open spec fn shows_help(area: Rect, draws: Seq<DrawView>) -> bool {
    exists|parts: Seq<Rect>| #[trigger]
        row_layout(centered(area, 52, 16), 1, 1, seq![1u16], seq![], parts) && draws == help_draws(
            area,
            parts[0],
            parts[1],
        )
}

impl HelpDialog {
    /// The lines of the help.
    pub fn lines(&self) -> (r: Vec<Line>)
        ensures
            line_views(r@) == help_lines(),
    {
        let keys = help_keys();
        let ghost top = seq![plain_line(seq![])];
        let ghost all = help_entries().map_values(|e: (Seq<char>, Seq<char>)| help_line(e));
        let mut out: Vec<Line> = Vec::new();
        push_line(&mut out, Line::blank());
        assert(line_views(out@) == top + all.take(0));
        let mut i: usize = 0;
        while i < keys.len()
            invariant
                i <= keys@.len(),
                keys@.map_values(|e: (&'static str, &'static str)| (e.0@, e.1@)) == help_entries(),
                all == help_entries().map_values(|e: (Seq<char>, Seq<char>)| help_line(e)),
                line_views(out@) == top + all.take(i as int),
            decreases keys@.len() - i,
        {
            let (key, desc) = keys[i];
            let mut spans: Vec<Span> = Vec::new();
            let mut s = "  ".to_owned();
            s.append(pad(key, 14).as_str());
            push_span(&mut spans, Span::styled(s, Style::bold(Color::LightCyan)));
            push_span(&mut spans, Span::styled(desc.to_owned(), Style::fg(Color::DarkGray)));
            let line = Line::of(spans);
            assert(help_entries()[i as int] == (key@, desc@));
            assert(line@.spans == help_line((key@, desc@)).spans);
            assert(line@ == all[i as int]);
            push_line(&mut out, line);
            assert((top + all.take(i as int)).push(all[i as int]) == top + all.take(i + 1));
            i += 1;
        }
        push_line(&mut out, Line::blank());
        assert(line_views(out@) == help_lines());
        out
    }

    /// What there is to draw over an area, given where its title and its body go.
    pub fn draws(&self, area: Rect, title: Rect, body: Rect) -> (r: Vec<Draw>)
        ensures
            draw_views(r@) == help_draws(area, title, body),
    {
        let mut out: Vec<Draw> = Vec::new();
        push_draw(&mut out, Draw::Erase(area));
        push_draw(&mut out, Draw::Text { area: title, text: heading(" Keybindings ") });
        push_draw(&mut out, Draw::Framed { area: body, lines: self.lines() });
        assert(draw_views(out@) == help_draws(area, title, body));
        out
    }

    /// What there is to draw over an area.
    pub fn render(&self, area: Rect) -> (r: Vec<Draw>)
        ensures
            shows_help(area, draw_views(r@)),
    {
        let length: [u16; 1] = [1];
        let none: [u16; 0] = [];
        let parts = rows(centered_rect(area, 52, 16), 1, 1, &length, &none);
        assert(length@ == seq![1u16]);
        assert(none@ == Seq::<u16>::empty());
        self.draws(area, parts[0], parts[1])
    }
}

/// A stack of dialogs. Only the topmost receives input and renders.
#[derive(Debug)]
pub struct DialogStack {
    pub model: Option<ModelDialog>,
    pub help: Option<HelpDialog>,
}

/// What a stack of dialogs holds.
#[verifier::ext_equal]
pub struct DialogView {
    pub model: Option<ModelDialogView>,
    pub help: bool,
}

impl View for DialogStack {
    type V = DialogView;

    open spec fn view(&self) -> DialogView {
        DialogView {
            model: match self.model {
                Some(d) => Some(d@),
                None => None,
            },
            help: self.help is Some,
        }
    }
}

/// No dialog is open.
pub open spec fn no_dialog() -> DialogView {
    DialogView { model: None, help: false }
}

impl DialogView {
    /// A dialog is open.
    pub open spec fn open(self) -> bool {
        self.model is Some || self.help
    }

    /// At most one dialog is open, and a choice is a proper one.
    pub open spec fn well_formed(self) -> bool {
        &&& self.model is Some ==> !self.help
        &&& self.model matches Some(d) ==> d.well_formed()
    }

    /// The stack after a key: the choice takes it, anything else is closed by it.
    pub open spec fn moved(self, action: Action) -> DialogView {
        match self.model {
            Some(d) => DialogView { model: Some(d.moved(action)), help: self.help },
            None => no_dialog(),
        }
    }

    /// What a key chooses, if anything.
    pub open spec fn chosen(self, action: Action) -> Option<Seq<char>> {
        match self.model {
            Some(d) => d.chosen(action),
            None => None,
        }
    }
}

/// `draws` is the dialog that is open: the choice where there is one, else the help,
/// and nothing where none is.
pub open spec fn shows_dialog(v: DialogView, area: Rect, draws: Seq<DrawView>) -> bool {
    match v.model {
        Some(d) => shows_choice(d, area, draws),
        None => if v.help {
            shows_help(area, draws)
        } else {
            draws.len() == 0
        },
    }
}

impl Default for DialogStack {
    fn default() -> (r: Self)
        ensures
            r@ == no_dialog(),
    {
        DialogStack { model: None, help: None }
    }
}

impl DialogStack {
    pub fn is_open(&self) -> (r: bool)
        ensures
            r == self@.open(),
    {
        self.model.is_some() || self.help.is_some()
    }

    pub fn open_model<F>(&mut self, cfg: &ResolvedConfig<F>)
        ensures
            final(self)@ == (DialogView { model: Some(fresh_choice(cfg.model@)), help: false }),
            final(self)@.well_formed(),
    {
        self.model = Some(ModelDialog::new(cfg));
        self.help = None;
    }

    pub fn open_help(&mut self)
        ensures
            final(self)@ == (DialogView { model: None, help: true }),
            final(self)@.well_formed(),
    {
        self.help = Some(HelpDialog);
        self.model = None;
    }

    pub fn close(&mut self)
        ensures
            final(self)@ == no_dialog(),
    {
        self.model = None;
        self.help = None;
    }

    /// Extract the state for rendering (leaving empty).
    pub fn take(&mut self) -> (r: Self)
        ensures
            r == *old(self),
            final(self)@ == no_dialog(),
    {
        DialogStack { model: self.model.take(), help: self.help.take() }
    }

    pub fn handle_key(&mut self, action: Action) -> (r: Option<String>)
        requires
            old(self)@.well_formed(),
        ensures
            final(self)@ == old(self)@.moved(action),
            final(self)@.well_formed(),
            opt_view(r) == old(self)@.chosen(action),
    {
        match self.model.take() {
            Some(d) => {
                let mut d = d;
                let r = d.handle_key(action);
                self.model = Some(d);
                r
            },
            None => {
                self.close();
                None
            },
        }
    }

    /// What there is to draw over an area: the choice where there is one, else the
    /// help.
    pub fn render(&self, area: Rect) -> (r: Vec<Draw>)
        ensures
            shows_dialog(self@, area, draw_views(r@)),
    {
        match &self.model {
            Some(d) => d.render(area),
            None => match &self.help {
                Some(d) => d.render(area),
                None => Vec::new(),
            },
        }
    }
}

/// Up and down undo one another except at the ends of the list.
pub proof fn law_up_undoes_down(d: ModelDialogView)
    requires
        d.well_formed(),
        d.selected + 1 < d.models.len(),
        d.models.len() <= usize::MAX,
    ensures
        d.moved(Action::DialogDown).moved(Action::DialogUp) == d,
        d.moved(Action::DialogDown) != d,
{
}

/// The model that is chosen is one of the list, and choosing changes nothing in it.
pub proof fn law_chosen_is_listed(d: ModelDialogView, action: Action)
    requires
        d.well_formed(),
    ensures
        d.chosen(action) matches Some(m) ==> d.models.contains(m) && d.moved(action) == d,
        d.moved(action).models == d.models,
{
}

/// The selection moves by one and stays in the list, the list marks what is selected,
/// and nothing else of the choice changes.
pub proof fn law_selection_moves(d: ModelDialogView)
    requires
        d.well_formed(),
    ensures
        ({
            let up = d.moved(Action::DialogUp);
            let down = d.moved(Action::DialogDown);
            &&& up.selected == if d.selected == 0 {
                0
            } else {
                d.selected - 1
            }
            &&& down.selected == if d.selected == d.models.len() - 1 {
                d.selected
            } else {
                d.selected + 1
            }
            &&& up.models == d.models && down.models == d.models
            &&& up.list_offset == d.list_offset && down.list_offset == d.list_offset
            &&& up.list_selected == Some(up.selected as usize)
            &&& down.list_selected == Some(down.selected as usize)
            &&& d.chosen(Action::DialogConfirm) == Some(d.models[d.selected])
            &&& d.chosen(Action::DialogUp) is None && d.chosen(Action::DialogDown) is None
        }),
{
}

/// A choice starts with the model in use, which is selected, and those on offer.
pub proof fn law_fresh_choice(model: Seq<char>)
    ensures
        fresh_choice(model).models == seq![model, "deepseek-v4-flash"@, "deepseek-v4-pro"@],
        fresh_choice(model).selected == 0,
        fresh_choice(model).list_selected == Some(0usize),
        fresh_choice(model).well_formed(),
{
}

/// A choice shows its models, each with two spaces on both sides, the selected one in
/// bold and no other.
pub proof fn law_choice_shows_models(d: ModelDialogView, i: int)
    requires
        d.well_formed(),
        0 <= i < d.models.len(),
    ensures
        choice_items(d).len() == d.models.len(),
        choice_items(d)[i].spans.len() == 1,
        choice_items(d)[i].spans[0].content == "  "@ + d.models[i] + "  "@,
        choice_items(d)[i].spans[0].style.bold <==> i == d.selected,
{
}

/// The help shows each key and what it does, the key filled up to fourteen characters,
/// with a blank line above and below.
pub proof fn law_help_shows_keys(i: int)
    requires
        0 <= i < 13,
    ensures
        help_lines().len() == 15,
        help_lines()[i + 1].spans.len() == 2,
        help_lines()[i + 1].spans[0].content == "  "@ + padded(help_entries()[i].0, 14),
        help_lines()[i + 1].spans[1].content == help_entries()[i].1,
        help_lines().first().spans.len() == 0,
        help_lines().last().spans.len() == 0,
{
}

/// Text is filled up with spaces behind it, and left alone where it is long enough.
pub proof fn law_padded(text: Seq<char>, n: nat)
    ensures
        text.is_prefix_of(padded(text, n)),
        padded(text, n).len() == if text.len() < n {
            n
        } else {
            text.len()
        },
        forall|i: int|
            text.len() <= i < padded(text, n).len() ==> #[trigger] padded(text, n)[i] == ' ',
{
}

/// Of a dialog, the choice of models or the help is drawn over the area, its title above
/// what it shows.
pub proof fn law_dialog_draws(d: ModelDialogView, area: Rect, title: Rect, body: Rect)
    ensures
        choice_draws(d, area, title, body) == seq![
            DrawView::Erase(area),
            DrawView::Text(title, heading_view(" Switch Model "@)),
            DrawView::Choices(body, choice_items(d), d.list_selected, d.list_offset),
        ],
        help_draws(area, title, body) == seq![
            DrawView::Erase(area),
            DrawView::Text(title, heading_view(" Keybindings "@)),
            DrawView::Framed(body, help_lines()),
        ],
{
}

/// A dialog is open where there is a choice or the help, and closing leaves neither.
pub proof fn law_dialog_open(d: ModelDialogView)
    ensures
        (DialogView { model: Some(d), help: false }).open(),
        (DialogView { model: None, help: true }).open(),
        !(DialogView { model: None, help: false }).open(),
        no_dialog() == (DialogView { model: None, help: false }),
{
}

/// The heading of a dialog is its text.
pub proof fn law_heading(text: Seq<char>)
    ensures
        heading_view(text).lines.len() == 1,
        heading_view(text).lines[0].spans.len() == 1,
        heading_view(text).lines[0].spans[0].content == text,
{
}

} // verus!
