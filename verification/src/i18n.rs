//! Language of the interface and of the reports (French / English).
//!
//! The core builds a few user-facing strings (step descriptions, progress
//! messages, HTML report); they are produced at display/export time in the
//! chosen [`Lang`] rather than frozen.

use vstd::prelude::*;

verus! {

/// Display language.
#[derive(Clone, Copy, PartialEq, Eq, Debug, Structural)]
pub enum Lang {
    /// French.
    Fr,
    /// English.
    En,
}

impl Default for Lang {
    /// French is the default language.
    fn default() -> (r: Self)
        ensures
            r == Lang::Fr,
    {
        Lang::Fr
    }
}

/// Whether a locale value designates French: it starts with `fr`, compared
/// case-insensitively.
pub open spec fn is_french_locale(v: Seq<char>) -> bool {
    &&& v.len() >= 2
    &&& (v[0] == 'f' || v[0] == 'F')
    &&& (v[1] == 'r' || v[1] == 'R')
}

/// The locale value that decides the language: the first variable that is
/// set among `LC_ALL`, `LC_MESSAGES` and `LANG`, or the empty string.
pub open spec fn chosen_locale(
    lc_all: Option<Seq<char>>,
    lc_messages: Option<Seq<char>>,
    lang: Option<Seq<char>>,
) -> Seq<char> {
    match lc_all {
        Some(v) => v,
        None => match lc_messages {
            Some(v) => v,
            None => match lang {
                Some(v) => v,
                None => Seq::empty(),
            },
        },
    }
}

/// The view of an optional string.
pub open spec fn opt_view(o: Option<String>) -> Option<Seq<char>> {
    match o {
        Some(s) => Some(s@),
        None => None,
    }
}

/// The language in which text is rendered: `pick(lang, fr, en)`.
pub open spec fn pick_spec<T>(lang: Lang, fr: T, en: T) -> T {
    match lang {
        Lang::Fr => fr,
        Lang::En => en,
    }
}

impl Lang {
    /// Detects the language from the locale variables (`LC_ALL`, then
    /// `LC_MESSAGES`, then `LANG`; `None` for a variable that is unset or
    /// not valid Unicode): French if the chosen value starts with `fr`
    /// (ignoring case), English otherwise.
    pub fn detect(lc_all: Option<String>, lc_messages: Option<String>, lang: Option<String>) -> (r:
        Self)
        ensures
            r == (if is_french_locale(
                chosen_locale(opt_view(lc_all), opt_view(lc_messages), opt_view(lang)),
            ) {
                Lang::Fr
            } else {
                Lang::En
            }),
    {
        let v: String = match lc_all {
            Some(v) => v,
            None => match lc_messages {
                Some(v) => v,
                None => match lang {
                    Some(v) => v,
                    None => String::new(),
                },
            },
        };
        let s: &str = v.as_str();
        if s.unicode_len() < 2 {
            return Lang::En;
        }
        let c0 = s.get_char(0);
        let c1 = s.get_char(1);
        if (c0 == 'f' || c0 == 'F') && (c1 == 'r' || c1 == 'R') {
            Lang::Fr
        } else {
            Lang::En
        }
    }

    /// Short ISO code (`"fr"` / `"en"`), for the `lang` attribute of the HTML.
    pub fn code(self) -> (r: &'static str)
        ensures
            r@ == pick_spec(self, "fr"@, "en"@),
    {
        match self {
            Lang::Fr => "fr",
            Lang::En => "en",
        }
    }

    /// Switches to the other language.
    pub fn toggled(self) -> (r: Self)
        ensures
            r == pick_spec(self, Lang::En, Lang::Fr),
            r != self,
    {
        match self {
            Lang::Fr => Lang::En,
            Lang::En => Lang::Fr,
        }
    }

    /// Progress message while the screen is captured.
    pub fn msg_capturing(self) -> (r: &'static str)
        ensures
            r@ == pick_spec(self, "Capture de l'écran…"@, "Capturing screen…"@),
    {
        self.pick("Capture de l'écran…", "Capturing screen…")
    }

    /// Progress message while a screenshot is written.
    pub fn msg_saving_image(self) -> (r: &'static str)
        ensures
            r@ == pick_spec(self, "Sauvegarde de l'image…"@, "Saving image…"@),
    {
        self.pick("Sauvegarde de l'image…", "Saving image…")
    }

    /// Progress message while the HTML report is built.
    pub fn msg_building_html(self) -> (r: &'static str)
        ensures
            r@ == pick_spec(self, "Création du HTML…"@, "Building HTML…"@),
    {
        self.pick("Création du HTML…", "Building HTML…")
    }

    /// Progress message while the archive is compressed.
    pub fn msg_compressing(self) -> (r: &'static str)
        ensures
            r@ == pick_spec(self, "Compression…"@, "Compressing…"@),
    {
        self.pick("Compression…", "Compressing…")
    }

    /// Chooses the string for the language (`fr`, `en`).
    pub fn pick(self, fr: &'static str, en: &'static str) -> (r: &'static str)
        ensures
            r == pick_spec(self, fr, en),
    {
        match self {
            Lang::Fr => fr,
            Lang::En => en,
        }
    }
}

/// Toggling the language twice gives back the original language.
pub proof fn lemma_toggled_twice(lang: Lang)
    ensures
        pick_spec(pick_spec(lang, Lang::En, Lang::Fr), Lang::En, Lang::Fr) == lang,
{
}

} // verus!
