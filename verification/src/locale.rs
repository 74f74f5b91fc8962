//! The languages of the user-facing text and the current choice.

use vstd::prelude::*;

verus! {

/// The languages available for localization
#[derive(Debug, Clone, Copy, PartialEq, Eq, Structural)]
pub enum Languages {
    English,
}

impl Default for Languages {
    fn default() -> (l: Self)
        ensures
            l == Languages::English,
    {
        Languages::English
    }
}

/// The name of a language in its own form (such as "Français").
pub open spec fn language_name(l: Languages) -> Seq<char> {
    match l {
        Languages::English => "English"@,
    }
}

/// The locale identifier of a language.
pub open spec fn language_tag(l: Languages) -> Seq<char> {
    match l {
        Languages::English => "en-US"@,
    }
}

impl Languages {
    /// The name of the language in its own form.
    pub fn as_str(&self) -> (name: &'static str)
        ensures
            name@ == language_name(*self),
    {
        match self {
            Languages::English => "English",
        }
    }

    /// The locale identifier of the language.
    pub fn tag(&self) -> (tag: &'static str)
        ensures
            tag@ == language_tag(*self),
    {
        match self {
            Languages::English => "en-US",
        }
    }
}

/// Array of available languages for iteration
pub fn language_list() -> (list: [Languages; 1])
    ensures
        list@ == seq![Languages::English],
{
    let list = [Languages::English];
    assert(list@ =~= seq![Languages::English]);
    list
}

/// Struct to hold the current locale of the application.
#[derive(Debug, Clone, Copy, PartialEq, Eq, Structural)]
pub struct LocaleText {
    language: Languages,
}

impl Default for LocaleText {
    fn default() -> (t: Self)
        ensures
            t.current() == Languages::English,
    {
        LocaleText { language: Languages::English }
    }
}

impl LocaleText {
    /// The current language.
    pub closed spec fn current(&self) -> Languages {
        self.language
    }

    /// Get the current language
    pub fn language(&self) -> (l: Languages)
        ensures
            l == self.current(),
    {
        self.language
    }

    /// Get the current language mutable
    pub fn language_mut(&mut self) -> (l: &mut Languages)
        ensures
            *l == old(self).current(),
            final(self).current() == *final(l),
    {
        &mut self.language
    }

    /// Set the current language
    pub fn set_language(&mut self, language: Languages)
        ensures
            final(self).current() == language,
    {
        self.language = language;
    }
}

} // verus!
