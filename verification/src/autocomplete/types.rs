use vstd::prelude::*;

verus! {

/// What kind of item a completion suggestion stands for.
#[derive(Clone, Copy, Debug, PartialEq, Eq, Structural)]
pub enum SuggestionKind {
    Variable,
    Function,
    Method,
    Keyword,
    Type,
    Constant,
    Module,
    Macro,
    Property,
    Snippet,
}

/// The icon shown beside a suggestion of this kind.
pub open spec fn icon_spec(k: SuggestionKind) -> Seq<char> {
    match k {
        SuggestionKind::Function => "\u{192}"@,
        SuggestionKind::Method => "\u{26a1}"@,
        SuggestionKind::Variable => "\u{1d465}"@,
        SuggestionKind::Type => "\u{1d447}"@,
        SuggestionKind::Constant => "\u{25c7}"@,
        SuggestionKind::Keyword => "\u{25c6}"@,
        SuggestionKind::Module => "\u{1f4e6}"@,
        SuggestionKind::Macro => "!"@,
        SuggestionKind::Property => "\u{25cb}"@,
        SuggestionKind::Snippet => "\u{1f4cb}"@,
    }
}

/// The rank of a suggestion kind in the completion list; lower comes
/// first.
pub open spec fn sort_priority_spec(k: SuggestionKind) -> int {
    match k {
        SuggestionKind::Keyword => 0,
        SuggestionKind::Snippet => 1,
        SuggestionKind::Function => 2,
        SuggestionKind::Method => 3,
        SuggestionKind::Type => 4,
        SuggestionKind::Variable => 5,
        SuggestionKind::Constant => 6,
        SuggestionKind::Property => 7,
        SuggestionKind::Module => 8,
        SuggestionKind::Macro => 9,
    }
}

impl SuggestionKind {
    /// The icon shown beside a suggestion of this kind.
    pub fn icon(&self) -> (r: &'static str)
        ensures
            r@ == icon_spec(*self),
    {
        match self {
            SuggestionKind::Function => "\u{192}",
            SuggestionKind::Method => "\u{26a1}",
            SuggestionKind::Variable => "\u{1d465}",
            SuggestionKind::Type => "\u{1d447}",
            SuggestionKind::Constant => "\u{25c7}",
            SuggestionKind::Keyword => "\u{25c6}",
            SuggestionKind::Module => "\u{1f4e6}",
            SuggestionKind::Macro => "!",
            SuggestionKind::Property => "\u{25cb}",
            SuggestionKind::Snippet => "\u{1f4cb}",
        }
    }

    /// The rank of this kind in the completion list; lower comes first.
    pub fn sort_priority(&self) -> (r: u8)
        ensures
            r as int == sort_priority_spec(*self),
    {
        match self {
            SuggestionKind::Keyword => 0,
            SuggestionKind::Snippet => 1,
            SuggestionKind::Function => 2,
            SuggestionKind::Method => 3,
            SuggestionKind::Type => 4,
            SuggestionKind::Variable => 5,
            SuggestionKind::Constant => 6,
            SuggestionKind::Property => 7,
            SuggestionKind::Module => 8,
            SuggestionKind::Macro => 9,
        }
    }
}

} // verus!
