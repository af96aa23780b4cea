//! Writing modes, and the mode in which text is written for each
//! application.

use crate::error::StorageError;
use crate::table::{lists_keys, without, KeyedTable};
use vstd::prelude::*;

verus! {

/// How text is to be written.
#[derive(Clone, Copy, Debug, PartialEq, Eq, Hash, Structural)]
pub enum WritingMode {
    /// Full sentences, capitals and punctuation.
    Formal,
    /// Friendly and clear.
    Casual,
    /// Lowercase, with little or no punctuation.
    VeryCasual,
    /// Lively, with exclamation marks.
    Excited,
}

/// The kind of application that text is written in.
#[derive(Clone, Copy, Debug, PartialEq, Eq, Hash, Structural)]
pub enum AppCategory {
    Email,
    Slack,
    Code,
    Documents,
    Social,
    Browser,
    Terminal,
    Unknown,
}

impl Default for WritingMode {
    fn default() -> (mode: Self)
        ensures
            mode == WritingMode::Casual,
    {
        WritingMode::Casual
    }
}

impl WritingMode {
    /// The mode that suits a kind of application.
    pub open spec fn suggestion(category: AppCategory) -> WritingMode {
        match category {
            AppCategory::Email => WritingMode::Formal,
            AppCategory::Slack => WritingMode::Casual,
            AppCategory::Code => WritingMode::Formal,
            AppCategory::Documents => WritingMode::Formal,
            AppCategory::Social => WritingMode::VeryCasual,
            AppCategory::Browser => WritingMode::Casual,
            AppCategory::Terminal => WritingMode::VeryCasual,
            AppCategory::Unknown => WritingMode::Casual,
        }
    }

    /// The mode that suits a kind of application.
    pub fn suggested_for_category(category: AppCategory) -> (mode: Self)
        ensures
            mode == Self::suggestion(category),
    {
        match category {
            AppCategory::Email => WritingMode::Formal,
            AppCategory::Slack => WritingMode::Casual,
            AppCategory::Code => WritingMode::Formal,
            AppCategory::Documents => WritingMode::Formal,
            AppCategory::Social => WritingMode::VeryCasual,
            AppCategory::Browser => WritingMode::Casual,
            AppCategory::Terminal => WritingMode::VeryCasual,
            AppCategory::Unknown => WritingMode::Casual,
        }
    }

    /// The number that stands for the mode where only numbers can be
    /// passed.
    pub open spec fn code_of(self) -> u8 {
        match self {
            WritingMode::Formal => 0,
            WritingMode::Casual => 1,
            WritingMode::VeryCasual => 2,
            WritingMode::Excited => 3,
        }
    }

    /// Computes [`WritingMode::code_of`].
    pub fn code(self) -> (code: u8)
        ensures
            code == self.code_of(),
    {
        match self {
            WritingMode::Formal => 0,
            WritingMode::Casual => 1,
            WritingMode::VeryCasual => 2,
            WritingMode::Excited => 3,
        }
    }

    /// The mode that a number stands for, if it stands for one.
    pub fn from_code(code: u8) -> (mode: Option<Self>)
        ensures
            mode is Some <==> code <= 3,
            mode is Some ==> mode->0.code_of() == code,
    {
        match code {
            0 => Some(WritingMode::Formal),
            1 => Some(WritingMode::Casual),
            2 => Some(WritingMode::VeryCasual),
            3 => Some(WritingMode::Excited),
            _ => None,
        }
    }
}

/// The mode of an application, as the store is to keep it.
#[derive(Clone, Debug)]
pub struct AppMode {
    /// The name of the application.
    pub app_name: String,
    /// Its mode.
    pub mode: WritingMode,
}

/// Keeps the writing mode of each application that has one of its own, and
/// the mode of all the others.
pub struct WritingModeEngine {
    default_mode: WritingMode,
    app_modes: KeyedTable<WritingMode>,
}

/// The mode of an application: its own, if it has one, and else the default.
pub open spec fn mode_of(
    overrides: Map<Seq<char>, WritingMode>,
    default_mode: WritingMode,
    app_name: Seq<char>,
) -> WritingMode {
    if overrides.contains_key(app_name) {
        overrides[app_name]
    } else {
        default_mode
    }
}

impl WritingModeEngine {
    /// The modes that applications have of their own.
    pub closed spec fn overrides(&self) -> Map<Seq<char>, WritingMode> {
        self.app_modes@
    }

    /// The applications that have a mode of their own, in the order in which
    /// they first got one.
    pub closed spec fn overridden(&self) -> Seq<Seq<char>> {
        self.app_modes.key_order()
    }

    /// The mode of the applications that have none of their own.
    pub closed spec fn fallback(&self) -> WritingMode {
        self.default_mode
    }

    /// An engine in which every application has the given mode.
    pub fn new(default_mode: WritingMode) -> (engine: Self)
        ensures
            engine.fallback() == default_mode,
            engine.overrides() == Map::<Seq<char>, WritingMode>::empty(),
            engine.overridden() == Seq::<Seq<char>>::empty(),
    {
        WritingModeEngine { default_mode, app_modes: KeyedTable::new() }
    }

    /// An engine for use with a store. It starts like [`Self::new`]: the
    /// modes in the store are taken up one by one, as they are asked for.
    pub fn from_storage(default_mode: WritingMode) -> (made: Result<Self, StorageError>)
        ensures
            made is Ok,
            made->Ok_0.fallback() == default_mode,
            made->Ok_0.overrides() == Map::<Seq<char>, WritingMode>::empty(),
            made->Ok_0.overridden() == Seq::<Seq<char>>::empty(),
    {
        Ok(Self::new(default_mode))
    }

    /// The mode that the application has of its own, if it has one.
    pub fn cached_mode(&self, app_name: &str) -> (mode: Option<WritingMode>)
        ensures
            mode == if self.overrides().contains_key(app_name@) {
                Some(self.overrides()[app_name@])
            } else {
                None
            },
    {
        match self.app_modes.get(app_name) {
            Some(mode) => Some(*mode),
            None => None,
        }
    }

    /// The mode of the application.
    pub fn get_mode(&self, app_name: &str) -> (mode: WritingMode)
        ensures
            mode == mode_of(self.overrides(), self.fallback(), app_name@),
    {
        match self.app_modes.get(app_name) {
            Some(mode) => *mode,
            None => self.default_mode,
        }
    }

    /// The mode of the application, with the store behind the engine.
    /// `stored` is the mode that the store holds for the application, if it
    /// holds one and could be read. Where the engine has no mode for the
    /// application yet, it takes up the stored one; where there is none
    /// either, the default applies.
    pub fn get_mode_with_storage(&mut self, app_name: &str, stored: Option<WritingMode>) -> (mode:
        WritingMode)
        ensures
            final(self).fallback() == old(self).fallback(),
            final(self).overrides() == if !old(self).overrides().contains_key(app_name@)
                && stored is Some {
                old(self).overrides().insert(app_name@, stored->0)
            } else {
                old(self).overrides()
            },
            final(self).overridden() == if !old(self).overrides().contains_key(app_name@)
                && stored is Some {
                old(self).overridden().push(app_name@)
            } else {
                old(self).overridden()
            },
            mode == mode_of(final(self).overrides(), final(self).fallback(), app_name@),
    {
        match self.app_modes.get(app_name) {
            Some(mode) => {
                return *mode;
            },
            None => {},
        }
        match stored {
            Some(mode) => {
                self.app_modes.insert(app_name.to_owned(), mode);
                mode
            },
            None => self.default_mode,
        }
    }

    /// Gives the application a mode of its own.
    pub fn set_mode(&mut self, app_name: &str, mode: WritingMode)
        ensures
            final(self).fallback() == old(self).fallback(),
            final(self).overrides() == old(self).overrides().insert(app_name@, mode),
            final(self).overridden() == if old(self).overrides().contains_key(app_name@) {
                old(self).overridden()
            } else {
                old(self).overridden().push(app_name@)
            },
    {
        self.app_modes.insert(app_name.to_owned(), mode);
    }

    /// Gives the application a mode of its own, and returns the record that
    /// the store is to keep.
    pub fn set_mode_with_storage(&mut self, app_name: &str, mode: WritingMode) -> (record: AppMode)
        ensures
            final(self).fallback() == old(self).fallback(),
            final(self).overrides() == old(self).overrides().insert(app_name@, mode),
            final(self).overridden() == if old(self).overrides().contains_key(app_name@) {
                old(self).overridden()
            } else {
                old(self).overridden().push(app_name@)
            },
            record.app_name@ == app_name@,
            record.mode == mode,
    {
        self.set_mode(app_name, mode);
        AppMode { app_name: app_name.to_owned(), mode }
    }

    /// The mode of the applications that have none of their own.
    pub fn default_mode(&self) -> (mode: WritingMode)
        ensures
            mode == self.fallback(),
    {
        self.default_mode
    }

    /// Sets the mode of the applications that have none of their own.
    pub fn set_default_mode(&mut self, mode: WritingMode)
        ensures
            final(self).fallback() == mode,
            final(self).overrides() == old(self).overrides(),
            final(self).overridden() == old(self).overridden(),
    {
        self.default_mode = mode;
    }

    /// Takes the application's own mode away, so that the default applies
    /// to it.
    pub fn clear_mode(&mut self, app_name: &str)
        ensures
            final(self).fallback() == old(self).fallback(),
            final(self).overrides() == old(self).overrides().remove(app_name@),
            final(self).overridden() == without(old(self).overridden(), app_name@),
    {
        self.app_modes.remove(app_name);
    }

    /// The applications that have a mode of their own, each with its mode,
    /// in the order in which they first got one.
    pub fn get_all_overrides(&self) -> (all: Vec<(String, WritingMode)>)
        ensures
            all.len() == self.overridden().len(),
            lists_keys(self.overrides(), self.overridden()),
            forall|i: int|
                0 <= i < all.len() ==> (#[trigger] all[i]).0@ == self.overridden()[i] && all[i].1
                    == self.overrides()[all[i].0@],
    {
        let keys = self.app_modes.keys();
        let mut all: Vec<(String, WritingMode)> = Vec::new();
        for i in 0..keys.len()
            invariant
                keys.deep_view() == self.overridden(),
                lists_keys(self.overrides(), self.overridden()),
                all.len() == i,
                forall|j: int|
                    0 <= j < i ==> (#[trigger] all[j]).0@ == self.overridden()[j] && all[j].1
                        == self.overrides()[all[j].0@],
        {
            let key = &keys[i];
            assert(keys.deep_view()[i as int] == key@);
            assert(self.overridden().contains(key@));
            match self.app_modes.get(key.as_str()) {
                Some(mode) => {
                    all.push((key.clone(), *mode));
                },
                None => {
                    assert(false);
                },
            }
        }
        all
    }
}

} // verus!
