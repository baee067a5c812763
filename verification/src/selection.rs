use vstd::prelude::*;
use crate::char_index::{CharIndex, CharIndexRange};
use crate::components::editor::Direction;
use crate::list::grep::GrepConfig;

verus! {

/// A note shown with a selection.
#[derive(Clone, Debug, PartialEq, Eq)]
pub struct Info {
    pub title: String,
    pub content: String,
}

/// What an `Info` holds, as mathematical values.
pub struct InfoView {
    pub title: Seq<char>,
    pub content: Seq<char>,
}

impl View for Info {
    type V = InfoView;

    open spec fn view(&self) -> InfoView {
        InfoView { title: self.title@, content: self.content@ }
    }
}

impl Info {
    /// A note with a title and a content.
    pub fn new(title: String, content: String) -> (r: Info)
        ensures
            r@ == (InfoView { title: title@, content: content@ }),
    {
        Info { title, content }
    }

    /// A copy with the same title and content.
    pub fn duplicate(&self) -> (r: Info)
        ensures
            r@ == self@,
    {
        Info { title: self.title.clone(), content: self.content.clone() }
    }

    /// Whether both hold the same title and content.
    pub fn same(&self, other: &Info) -> (b: bool)
        ensures
            b == (self@ == other@),
    {
        self.title == other.title && self.content == other.content
    }
}

/// One cursor: the selected range, the anchor of a selection being extended, the text that the
/// cursor has copied, and a note.
#[derive(Clone, Debug, PartialEq, Eq)]
pub struct Selection {
    pub range: CharIndexRange,
    pub initial_range: Option<CharIndexRange>,
    pub copied_text: Option<String>,
    pub info: Option<Info>,
}

/// What a `Selection` holds, as mathematical values.
pub struct SelectionView {
    pub range: CharIndexRange,
    pub initial_range: Option<CharIndexRange>,
    pub copied_text: Option<Seq<char>>,
    pub info: Option<InfoView>,
}

impl View for Selection {
    type V = SelectionView;

    open spec fn view(&self) -> SelectionView {
        SelectionView {
            range: self.range,
            initial_range: self.initial_range,
            copied_text: match self.copied_text {
                Some(s) => Some(s@),
                None => None,
            },
            info: match self.info {
                Some(i) => Some(i@),
                None => None,
            },
        }
    }
}

impl SelectionView {
    /// The smallest range that covers the range and the anchor.
    pub open spec fn extended_range(self) -> CharIndexRange {
        match self.initial_range {
            Some(initial) => self.range.spec_hull(initial),
            None => self.range,
        }
    }

    /// The selection after highlight mode is toggled: without an anchor, the range becomes
    /// the anchor; with one, the anchor and the range change places.
    pub open spec fn toggled(self) -> SelectionView {
        match self.initial_range {
            Some(anchor) => SelectionView { range: anchor, initial_range: Some(self.range), ..self },
            None => SelectionView { initial_range: Some(self.range), ..self },
        }
    }

    /// A selection of `range` alone.
    pub open spec fn of_range(range: CharIndexRange) -> SelectionView {
        SelectionView { range, initial_range: None, copied_text: None, info: None }
    }

    /// The character under the cursor: the first of the range, or the last for a cursor at the
    /// end.
    pub open spec fn cursor(self, direction: Direction) -> CharIndex {
        match direction {
            Direction::Start => self.range.start,
            Direction::End => if self.range.end.0 > self.range.start.0 {
                CharIndex((self.range.end.0 - 1) as usize)
            } else {
                self.range.start
            },
        }
    }

    /// Both ends of the range, and of the anchor, brought down to `max` where they lie beyond.
    pub open spec fn clamp(self, max: CharIndex) -> SelectionView {
        SelectionView {
            range: clamp_range(self.range, max),
            initial_range: match self.initial_range {
                Some(r) => Some(clamp_range(r, max)),
                None => None,
            },
            ..self
        }
    }
}

/// Both ends of `range` brought down to `max` where they lie beyond it.
pub open spec fn clamp_range(range: CharIndexRange, max: CharIndex) -> CharIndexRange {
    CharIndexRange {
        start: if range.start.0 <= max.0 { range.start } else { max },
        end: if range.end.0 <= max.0 { range.end } else { max },
    }
}

/// A range with both ends brought down to `max`.
fn clamp_range_exec(range: CharIndexRange, max: CharIndex) -> (r: CharIndexRange)
    ensures
        r == clamp_range(range, max),
{
    CharIndexRange {
        start: if range.start.0 <= max.0 { range.start } else { max },
        end: if range.end.0 <= max.0 { range.end } else { max },
    }
}

impl Selection {
    /// A selection of `range`, with no anchor, copied text or note.
    pub fn new(range: CharIndexRange) -> (r: Selection)
        ensures
            r@ == SelectionView::of_range(range),
    {
        Selection { range, initial_range: None, copied_text: None, info: None }
    }

    /// The empty selection at the start of the text.
    pub fn default() -> (r: Selection)
        ensures
            r@ == SelectionView::of_range(CharIndexRange { start: CharIndex(0), end: CharIndex(0) }),
    {
        Selection::new(CharIndexRange { start: CharIndex(0), end: CharIndex(0) })
    }

    /// A copy that holds the same values.
    pub fn duplicate(&self) -> (r: Selection)
        ensures
            r@ == self@,
    {
        Selection {
            range: self.range,
            initial_range: self.initial_range,
            copied_text: match &self.copied_text {
                Some(s) => Some(s.clone()),
                None => None,
            },
            info: match &self.info {
                Some(i) => Some(i.duplicate()),
                None => None,
            },
        }
    }

    /// Whether both hold the same values.
    pub fn same(&self, other: &Selection) -> (b: bool)
        ensures
            b == (self@ == other@),
    {
        let ranges: bool = self.range == other.range && self.initial_range == other.initial_range;
        let texts: bool = match (&self.copied_text, &other.copied_text) {
            (Some(a), Some(b)) => *a == *b,
            (None, None) => true,
            _ => false,
        };
        let infos: bool = match (&self.info, &other.info) {
            (Some(a), Some(b)) => a.same(b),
            (None, None) => true,
            _ => false,
        };
        ranges && texts && infos
    }

    /// The smallest range that covers the selected range and the anchor.
    pub fn extended_range(&self) -> (r: CharIndexRange)
        ensures
            r == self@.extended_range(),
    {
        match self.initial_range {
            Some(initial) => self.range.hull(&initial),
            None => self.range,
        }
    }

    /// The selected range and, where there is one, the anchor.
    pub fn anchors(&self) -> (r: Vec<CharIndexRange>)
        ensures
            r@ == (match self@.initial_range {
                Some(initial) => seq![self.range, initial],
                None => seq![self.range],
            }),
    {
        let mut r: Vec<CharIndexRange> = Vec::new();
        r.push(self.range);
        if let Some(initial) = self.initial_range {
            r.push(initial);
        }
        r
    }

    /// The character under the cursor.
    pub fn to_char_index(&self, direction: &Direction) -> (c: CharIndex)
        ensures
            c == self@.cursor(*direction),
    {
        match direction {
            Direction::Start => self.range.start,
            Direction::End => if self.range.end.0 > self.range.start.0 {
                CharIndex(self.range.end.0 - 1)
            } else {
                self.range.start
            },
        }
    }

    /// The end of the range that the cursor sits on.
    pub fn get_anchor(&self, direction: &Direction) -> (c: CharIndex)
        ensures
            c == (match *direction {
                Direction::Start => self.range.start,
                Direction::End => self.range.end,
            }),
    {
        match direction {
            Direction::Start => self.range.start,
            Direction::End => self.range.end,
        }
    }

    /// The same selection over another range.
    pub fn set_range(self, range: CharIndexRange) -> (r: Selection)
        ensures
            r@ == (SelectionView { range, ..self@ }),
    {
        Selection { range, ..self }
    }

    /// The same selection with another anchor.
    pub fn set_initial_range(self, initial_range: Option<CharIndexRange>) -> (r: Selection)
        ensures
            r@ == (SelectionView { initial_range, ..self@ }),
    {
        Selection { initial_range, ..self }
    }

    /// The same selection with other copied text.
    pub fn set_copied_text(self, copied_text: Option<String>) -> (r: Selection)
        ensures
            r@ == (SelectionView {
                copied_text: match copied_text {
                    Some(s) => Some(s@),
                    None => None,
                },
                ..self@
            }),
    {
        Selection { copied_text, ..self }
    }

    /// The same selection with another note.
    pub fn set_info(self, info: Option<Info>) -> (r: Selection)
        ensures
            r@ == (SelectionView {
                info: match info {
                    Some(i) => Some(i@),
                    None => None,
                },
                ..self@
            }),
    {
        Selection { info, ..self }
    }

    /// Starts extending from the current range; where an anchor is set already, the anchor
    /// and the range change places.
    pub fn toggle_highlight_mode(&mut self)
        ensures
            final(self)@ == old(self)@.toggled(),
    {
        match self.initial_range {
            Some(anchor) => {
                self.initial_range = Some(self.range);
                self.range = anchor;
            },
            None => {
                self.initial_range = Some(self.range);
            },
        }
    }

    /// Drops the anchor.
    pub fn escape_highlight_mode(&mut self)
        ensures
            final(self)@ == (SelectionView { initial_range: None, ..old(self)@ }),
    {
        self.initial_range = None;
    }

    /// The selection with the ends of its range and anchor brought down to `max`.
    pub fn clamp(&self, max: CharIndex) -> (r: Selection)
        ensures
            r@ == self@.clamp(max),
    {
        let copy: Selection = self.duplicate();
        Selection {
            range: clamp_range_exec(self.range, max),
            initial_range: match self.initial_range {
                Some(r) => Some(clamp_range_exec(r, max)),
                None => None,
            },
            ..copy
        }
    }
}

/// The pairs of delimiters between which a selection can be taken.
#[derive(Clone, Copy, Debug, PartialEq, Eq, Structural)]
pub enum InsideKind {
    Parentheses,
    CurlyBraces,
    AngularBrackets,
    SquareBrackets,
    DoubleQuotes,
    SingleQuotes,
    BackQuotes,
}

impl InsideKind {
    /// The opening and the closing delimiter.
    pub open spec fn spec_delimiters(self) -> (char, char) {
        match self {
            InsideKind::Parentheses => ('(', ')'),
            InsideKind::CurlyBraces => ('{', '}'),
            InsideKind::AngularBrackets => ('<', '>'),
            InsideKind::SquareBrackets => ('[', ']'),
            InsideKind::DoubleQuotes => ('"', '"'),
            InsideKind::SingleQuotes => ('\'', '\''),
            InsideKind::BackQuotes => ('`', '`'),
        }
    }

    /// The opening and the closing delimiter.
    pub fn delimiters(&self) -> (r: (char, char))
        ensures
            r == self.spec_delimiters(),
    {
        match self {
            InsideKind::Parentheses => ('(', ')'),
            InsideKind::CurlyBraces => ('{', '}'),
            InsideKind::AngularBrackets => ('<', '>'),
            InsideKind::SquareBrackets => ('[', ']'),
            InsideKind::DoubleQuotes => ('"', '"'),
            InsideKind::SingleQuotes => ('\'', '\''),
            InsideKind::BackQuotes => ('`', '`'),
        }
    }
}

/// What to look for, and how.
#[derive(Clone, Debug, PartialEq, Eq)]
pub struct Search {
    pub search: String,
    pub config: GrepConfig,
}

/// The domain over which the cursor moves.
#[derive(Clone, Debug, PartialEq, Eq)]
pub enum SelectionMode {
    Character,
    WordShort,
    Word,
    LineTrimmed,
    LineFull,
    SyntaxTree,
    TopNode,
    BottomNode,
    Inside(InsideKind),
    Find { search: Search },
    Bookmark,
    Diagnostic,
    Custom,
}

/// What a `SelectionMode` holds, as mathematical values.
pub enum SelectionModeView {
    Character,
    WordShort,
    Word,
    LineTrimmed,
    LineFull,
    SyntaxTree,
    TopNode,
    BottomNode,
    Inside(InsideKind),
    Find { search: Seq<char>, config: GrepConfig },
    Bookmark,
    Diagnostic,
    Custom,
}

impl View for SelectionMode {
    type V = SelectionModeView;

    open spec fn view(&self) -> SelectionModeView {
        match self {
            SelectionMode::Character => SelectionModeView::Character,
            SelectionMode::WordShort => SelectionModeView::WordShort,
            SelectionMode::Word => SelectionModeView::Word,
            SelectionMode::LineTrimmed => SelectionModeView::LineTrimmed,
            SelectionMode::LineFull => SelectionModeView::LineFull,
            SelectionMode::SyntaxTree => SelectionModeView::SyntaxTree,
            SelectionMode::TopNode => SelectionModeView::TopNode,
            SelectionMode::BottomNode => SelectionModeView::BottomNode,
            SelectionMode::Inside(k) => SelectionModeView::Inside(*k),
            SelectionMode::Find { search } => SelectionModeView::Find {
                search: search.search@,
                config: search.config,
            },
            SelectionMode::Bookmark => SelectionModeView::Bookmark,
            SelectionMode::Diagnostic => SelectionModeView::Diagnostic,
            SelectionMode::Custom => SelectionModeView::Custom,
        }
    }
}

impl SelectionModeView {
    /// Whether the elements of the mode follow one another with nothing but blank text, or a
    /// separator of the syntax, between them.
    pub open spec fn is_contiguous(self) -> bool {
        match self {
            SelectionModeView::Character => true,
            SelectionModeView::WordShort => true,
            SelectionModeView::Word => true,
            SelectionModeView::LineTrimmed => true,
            SelectionModeView::LineFull => true,
            SelectionModeView::SyntaxTree => true,
            SelectionModeView::TopNode => true,
            SelectionModeView::BottomNode => true,
            _ => false,
        }
    }

    /// The name shown for the mode.
    pub open spec fn name(self) -> Seq<char> {
        match self {
            SelectionModeView::Character => "CHAR"@,
            SelectionModeView::WordShort => "WORD(SHORT)"@,
            SelectionModeView::Word => "WORD"@,
            SelectionModeView::LineTrimmed => "LINE(TRIMMED)"@,
            SelectionModeView::LineFull => "LINE(FULL)"@,
            SelectionModeView::SyntaxTree => "SYNTAX TREE"@,
            SelectionModeView::TopNode => "TOP NODE"@,
            SelectionModeView::BottomNode => "BOTTOM NODE"@,
            SelectionModeView::Inside(_) => "INSIDE"@,
            SelectionModeView::Find { .. } => "FIND"@,
            SelectionModeView::Bookmark => "BOOKMARK"@,
            SelectionModeView::Diagnostic => "DIAGNOSTIC"@,
            SelectionModeView::Custom => "CUSTOM"@,
        }
    }

    /// Whether the elements of the mode are nodes of the syntax tree.
    pub open spec fn is_node(self) -> bool {
        match self {
            SelectionModeView::SyntaxTree => true,
            SelectionModeView::TopNode => true,
            SelectionModeView::BottomNode => true,
            _ => false,
        }
    }
}

impl SelectionMode {
    /// A copy of the mode.
    pub fn duplicate(&self) -> (r: SelectionMode)
        ensures
            r@ == self@,
    {
        match self {
            SelectionMode::Character => SelectionMode::Character,
            SelectionMode::WordShort => SelectionMode::WordShort,
            SelectionMode::Word => SelectionMode::Word,
            SelectionMode::LineTrimmed => SelectionMode::LineTrimmed,
            SelectionMode::LineFull => SelectionMode::LineFull,
            SelectionMode::SyntaxTree => SelectionMode::SyntaxTree,
            SelectionMode::TopNode => SelectionMode::TopNode,
            SelectionMode::BottomNode => SelectionMode::BottomNode,
            SelectionMode::Inside(k) => SelectionMode::Inside(*k),
            SelectionMode::Find { search } => SelectionMode::Find {
                search: Search { search: search.search.clone(), config: search.config },
            },
            SelectionMode::Bookmark => SelectionMode::Bookmark,
            SelectionMode::Diagnostic => SelectionMode::Diagnostic,
            SelectionMode::Custom => SelectionMode::Custom,
        }
    }

    /// Whether both are the same mode, with the same search where they search.
    pub fn same(&self, other: &SelectionMode) -> (b: bool)
        ensures
            b == (self@ == other@),
    {
        match (self, other) {
            (SelectionMode::Character, SelectionMode::Character) => true,
            (SelectionMode::WordShort, SelectionMode::WordShort) => true,
            (SelectionMode::Word, SelectionMode::Word) => true,
            (SelectionMode::LineTrimmed, SelectionMode::LineTrimmed) => true,
            (SelectionMode::LineFull, SelectionMode::LineFull) => true,
            (SelectionMode::SyntaxTree, SelectionMode::SyntaxTree) => true,
            (SelectionMode::TopNode, SelectionMode::TopNode) => true,
            (SelectionMode::BottomNode, SelectionMode::BottomNode) => true,
            (SelectionMode::Inside(a), SelectionMode::Inside(b)) => *a == *b,
            (SelectionMode::Find { search: a }, SelectionMode::Find { search: b }) => a.search
                == b.search && a.config == b.config,
            (SelectionMode::Bookmark, SelectionMode::Bookmark) => true,
            (SelectionMode::Diagnostic, SelectionMode::Diagnostic) => true,
            (SelectionMode::Custom, SelectionMode::Custom) => true,
            _ => false,
        }
    }

    /// Whether the elements of the mode follow one another without text of their own kind
    /// between them.
    pub fn is_contiguous(&self) -> (b: bool)
        ensures
            b == self@.is_contiguous(),
    {
        match self {
            SelectionMode::Character => true,
            SelectionMode::WordShort => true,
            SelectionMode::Word => true,
            SelectionMode::LineTrimmed => true,
            SelectionMode::LineFull => true,
            SelectionMode::SyntaxTree => true,
            SelectionMode::TopNode => true,
            SelectionMode::BottomNode => true,
            _ => false,
        }
    }

    /// Whether the elements of the mode are nodes of the syntax tree.
    pub fn is_node(&self) -> (b: bool)
        ensures
            b == self@.is_node(),
    {
        match self {
            SelectionMode::SyntaxTree => true,
            SelectionMode::TopNode => true,
            SelectionMode::BottomNode => true,
            _ => false,
        }
    }

    /// The name shown for the mode.
    pub fn display(&self) -> (s: &'static str)
        ensures
            s@ == self@.name(),
    {
        match self {
            SelectionMode::Character => "CHAR",
            SelectionMode::WordShort => "WORD(SHORT)",
            SelectionMode::Word => "WORD",
            SelectionMode::LineTrimmed => "LINE(TRIMMED)",
            SelectionMode::LineFull => "LINE(FULL)",
            SelectionMode::SyntaxTree => "SYNTAX TREE",
            SelectionMode::TopNode => "TOP NODE",
            SelectionMode::BottomNode => "BOTTOM NODE",
            SelectionMode::Inside(_) => "INSIDE",
            SelectionMode::Find { .. } => "FIND",
            SelectionMode::Bookmark => "BOOKMARK",
            SelectionMode::Diagnostic => "DIAGNOSTIC",
            SelectionMode::Custom => "CUSTOM",
        }
    }
}

/// Whether a filter keeps the candidates that its pattern matches, or removes them.
#[derive(Clone, Copy, Debug, PartialEq, Eq, Structural)]
pub enum FilterKind {
    Keep,
    Remove,
}

/// What of a candidate the pattern of a filter is held against: its own text, or the text of
/// the smallest node of the syntax tree that covers it.
#[derive(Clone, Copy, Debug, PartialEq, Eq, Structural)]
pub enum FilterTarget {
    Content,
    AstGrep,
}

/// How the pattern of a filter is read.
#[derive(Clone, Debug, PartialEq, Eq)]
pub enum FilterMechanism {
    Literal(String),
    Regex(String),
}

/// A condition on the candidates of a selection mode.
#[derive(Clone, Debug, PartialEq, Eq)]
pub struct Filter {
    pub kind: FilterKind,
    pub target: FilterTarget,
    pub mechanism: FilterMechanism,
}

/// What a `Filter` holds, as mathematical values.
pub struct FilterView {
    pub kind: FilterKind,
    pub target: FilterTarget,
    pub is_regex: bool,
    pub pattern: Seq<char>,
}

impl View for Filter {
    type V = FilterView;

    open spec fn view(&self) -> FilterView {
        FilterView {
            kind: self.kind,
            target: self.target,
            is_regex: self.mechanism is Regex,
            pattern: match self.mechanism {
                FilterMechanism::Literal(s) => s@,
                FilterMechanism::Regex(s) => s@,
            },
        }
    }
}

impl Filter {
    /// A filter of this kind, on this target, by this mechanism.
    pub fn new(kind: FilterKind, target: FilterTarget, mechanism: FilterMechanism) -> (f: Filter)
        ensures
            f.kind == kind,
            f.target == target,
            f.mechanism == mechanism,
    {
        Filter { kind, target, mechanism }
    }

    /// A copy of the filter.
    pub fn duplicate(&self) -> (r: Filter)
        ensures
            r@ == self@,
    {
        Filter {
            kind: self.kind,
            target: self.target,
            mechanism: match &self.mechanism {
                FilterMechanism::Literal(s) => FilterMechanism::Literal(s.clone()),
                FilterMechanism::Regex(s) => FilterMechanism::Regex(s.clone()),
            },
        }
    }
}

/// The filters in force, in the order in which they were put on.
#[derive(Clone, Debug, PartialEq, Eq)]
pub struct Filters {
    pub filters: Vec<Filter>,
}

impl View for Filters {
    type V = Seq<FilterView>;

    open spec fn view(&self) -> Seq<FilterView> {
        Seq::new(self.filters@.len(), |i: int| self.filters@[i]@)
    }
}

impl Filters {
    /// No filter.
    pub fn default() -> (f: Filters)
        ensures
            f@ == Seq::<FilterView>::empty(),
    {
        let f = Filters { filters: Vec::new() };
        assert(f@ =~= Seq::<FilterView>::empty());
        f
    }

    /// Whether no filter is in force.
    pub fn is_empty(&self) -> (b: bool)
        ensures
            b == (self@.len() == 0),
    {
        self.filters.len() == 0
    }

    /// A copy of the filters.
    pub fn duplicate(&self) -> (r: Filters)
        ensures
            r@ == self@,
    {
        let mut filters: Vec<Filter> = Vec::new();
        let mut i: usize = 0;
        while i < self.filters.len()
            invariant
                i <= self.filters.len(),
                filters@.len() == i,
                forall|k: int| 0 <= k < i ==> filters@[k]@ == self.filters@[k]@,
            decreases self.filters.len() - i,
        {
            filters.push(self.filters[i].duplicate());
            i += 1;
        }
        let r = Filters { filters };
        assert(r@ =~= self@);
        r
    }

    /// The filters with `filter` put on last.
    pub fn push(self, filter: Filter) -> (r: Filters)
        ensures
            r@ == self@.push(filter@),
    {
        let mut filters: Vec<Filter> = self.filters;
        let ghost before = Seq::new(filters@.len(), |i: int| filters@[i]@);
        filters.push(filter);
        let r = Filters { filters };
        assert(r@ =~= before.push(filter@));
        r
    }
}

/// The views of the selections of a list.
pub open spec fn views_of(selections: Seq<Selection>) -> Seq<SelectionView> {
    Seq::new(selections.len(), |i: int| selections[i]@)
}

/// The cursors of an editor: one primary selection and any number of others, with the mode and
/// the filters they move by.
#[derive(Clone, Debug, PartialEq, Eq)]
pub struct SelectionSet {
    pub primary: Selection,
    pub secondary: Vec<Selection>,
    pub mode: SelectionMode,
    pub filters: Filters,
}

/// What a `SelectionSet` holds, as mathematical values.
pub struct SelectionSetView {
    pub primary: SelectionView,
    pub secondary: Seq<SelectionView>,
    pub mode: SelectionModeView,
    pub filters: Seq<FilterView>,
}

impl View for SelectionSet {
    type V = SelectionSetView;

    open spec fn view(&self) -> SelectionSetView {
        SelectionSetView {
            primary: self.primary@,
            secondary: views_of(self.secondary@),
            mode: self.mode@,
            filters: self.filters@,
        }
    }
}

impl SelectionSetView {
    /// One empty selection at the start of the text, in the mode that moves nowhere, without
    /// filters.
    pub open spec fn initial() -> SelectionSetView {
        SelectionSetView {
            primary: SelectionView::of_range(CharIndexRange { start: CharIndex(0), end: CharIndex(0) }),
            secondary: Seq::empty(),
            mode: SelectionModeView::Custom,
            filters: Seq::empty(),
        }
    }

    /// All selections, the primary first.
    pub open spec fn all(self) -> Seq<SelectionView> {
        seq![self.primary] + self.secondary
    }

    /// Every range and anchor ends within a text of `len` characters.
    pub open spec fn within(self, len: nat) -> bool {
        forall|i: int|
            0 <= i < self.all().len() ==> {
                let s = #[trigger] self.all()[i];
                s.extended_range().end.0 <= len && s.range.end.0 <= len
            }
    }
}

impl SelectionSet {
    /// One empty selection at the start of the text, in the mode that moves nowhere.
    pub fn default() -> (r: SelectionSet)
        ensures
            r@ == SelectionSetView::initial(),
    {
        let r = SelectionSet {
            primary: Selection::default(),
            secondary: Vec::new(),
            mode: SelectionMode::Custom,
            filters: Filters::default(),
        };
        assert(r@.secondary =~= Seq::empty());
        r
    }

    /// A copy of the set.
    pub fn duplicate(&self) -> (r: SelectionSet)
        ensures
            r@ == self@,
    {
        let mut secondary: Vec<Selection> = Vec::new();
        let mut i: usize = 0;
        while i < self.secondary.len()
            invariant
                i <= self.secondary.len(),
                secondary@.len() == i,
                forall|k: int| 0 <= k < i ==> secondary@[k]@ == self.secondary@[k]@,
            decreases self.secondary.len() - i,
        {
            secondary.push(self.secondary[i].duplicate());
            i += 1;
        }
        let r = SelectionSet {
            primary: self.primary.duplicate(),
            secondary,
            mode: self.mode.duplicate(),
            filters: self.filters.duplicate(),
        };
        assert(r@.secondary =~= self@.secondary);
        r
    }

    /// All selections, the primary first.
    pub fn selections(&self) -> (r: Vec<Selection>)
        ensures
            views_of(r@) == self@.all(),
    {
        let mut r: Vec<Selection> = Vec::new();
        r.push(self.primary.duplicate());
        let mut i: usize = 0;
        while i < self.secondary.len()
            invariant
                i <= self.secondary.len(),
                r@.len() == i + 1,
                r@[0]@ == self.primary@,
                forall|k: int| 0 <= k < i ==> r@[k + 1]@ == self.secondary@[k]@,
            decreases self.secondary.len() - i,
        {
            r.push(self.secondary[i].duplicate());
            i += 1;
        }
        assert(views_of(r@) =~= self@.all());
        r
    }

    /// The number of selections.
    pub fn len(&self) -> (n: usize)
        requires
            self.secondary@.len() < usize::MAX,
        ensures
            n == self@.all().len(),
    {
        self.secondary.len() + 1
    }

    /// Drops every selection but the primary.
    pub fn only(&mut self)
        ensures
            final(self)@ == (SelectionSetView { secondary: Seq::empty(), ..old(self)@ }),
    {
        self.secondary = Vec::new();
        assert(self@.secondary =~= Seq::empty());
    }

    /// Starts or stops extending, for every selection.
    pub fn toggle_highlight_mode(&mut self)
        ensures
            final(self)@.mode == old(self)@.mode,
            final(self)@.filters == old(self)@.filters,
            final(self)@.all().len() == old(self)@.all().len(),
            forall|i: int|
                0 <= i < old(self)@.all().len() ==> #[trigger] final(self)@.all()[i]
                    == old(self)@.all()[i].toggled(),
    {
        self.primary.toggle_highlight_mode();
        let mut i: usize = 0;
        let ghost before = self.secondary@;
        while i < self.secondary.len()
            invariant
                i <= self.secondary.len(),
                self.secondary@.len() == before.len(),
                self.mode == old(self).mode,
                self.filters == old(self).filters,
                before == old(self).secondary@,
                self.primary@ == old(self).primary@.toggled(),
                forall|k: int| i <= k < before.len() ==> self.secondary@[k] == before[k],
                forall|k: int| 0 <= k < i ==> self.secondary@[k]@ == before[k]@.toggled(),
            decreases self.secondary.len() - i,
        {
            let mut s: Selection = self.secondary[i].duplicate();
            s.toggle_highlight_mode();
            self.secondary.set(i, s);
            i += 1;
        }
    }

    /// Drops the anchor of every selection.
    pub fn escape_highlight_mode(&mut self)
        ensures
            final(self)@.mode == old(self)@.mode,
            final(self)@.filters == old(self)@.filters,
            final(self)@.all().len() == old(self)@.all().len(),
            forall|i: int|
                0 <= i < old(self)@.all().len() ==> #[trigger] final(self)@.all()[i] == (
                SelectionView { initial_range: None, ..old(self)@.all()[i] }),
    {
        self.primary.escape_highlight_mode();
        let mut i: usize = 0;
        let ghost before = self.secondary@;
        while i < self.secondary.len()
            invariant
                i <= self.secondary.len(),
                self.secondary@.len() == before.len(),
                self.mode == old(self).mode,
                self.filters == old(self).filters,
                before == old(self).secondary@,
                self.primary@ == (SelectionView { initial_range: None, ..old(self).primary@ }),
                forall|k: int| i <= k < before.len() ==> self.secondary@[k] == before[k],
                forall|k: int|
                    0 <= k < i ==> self.secondary@[k]@ == (SelectionView {
                        initial_range: None,
                        ..before[k]@
                    }),
            decreases self.secondary.len() - i,
        {
            let mut s: Selection = self.secondary[i].duplicate();
            s.escape_highlight_mode();
            self.secondary.set(i, s);
            i += 1;
        }
    }

    /// The set with the ends of every range and anchor brought down to `max`.
    pub fn clamp(&self, max: CharIndex) -> (r: SelectionSet)
        ensures
            r@.mode == self@.mode,
            r@.filters == self@.filters,
            r@.primary == self@.primary.clamp(max),
            r@.secondary.len() == self@.secondary.len(),
            forall|i: int|
                0 <= i < self@.secondary.len() ==> #[trigger] r@.secondary[i]
                    == self@.secondary[i].clamp(max),
    {
        let mut secondary: Vec<Selection> = Vec::new();
        let mut i: usize = 0;
        while i < self.secondary.len()
            invariant
                i <= self.secondary.len(),
                secondary@.len() == i,
                forall|k: int| 0 <= k < i ==> secondary@[k]@ == self.secondary@[k]@.clamp(max),
            decreases self.secondary.len() - i,
        {
            secondary.push(self.secondary[i].clamp(max));
            i += 1;
        }
        SelectionSet {
            primary: self.primary.clamp(max),
            secondary,
            mode: self.mode.duplicate(),
            filters: self.filters.duplicate(),
        }
    }

    /// The set with `filter` put on last.
    pub fn filter_push(self, filter: Filter) -> (r: SelectionSet)
        ensures
            r@ == (SelectionSetView { filters: self@.filters.push(filter@), ..self@ }),
    {
        SelectionSet {
            primary: self.primary,
            secondary: self.secondary,
            mode: self.mode,
            filters: self.filters.push(filter),
        }
    }

    /// The set without filters.
    pub fn filter_clear(self) -> (r: SelectionSet)
        ensures
            r@ == (SelectionSetView { filters: Seq::empty(), ..self@ }),
    {
        SelectionSet {
            primary: self.primary,
            secondary: self.secondary,
            mode: self.mode,
            filters: Filters::default(),
        }
    }
}

} // verus!
