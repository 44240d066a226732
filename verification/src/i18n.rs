//! Messages in the user's language.

use vstd::prelude::*;
use vstd::string::*;
use crate::text::{placeholder, placeholder_of, replace_all, replace_text};

verus! {

/// A language that messages exist in.
#[derive(Clone, Copy, Debug, Hash, PartialEq, Eq, Structural)]
pub enum Language {
    Ba,
}

/// The message keys of the bots.
#[derive(Clone, Copy, Debug, PartialEq, Eq, Structural)]
pub enum TranslationKey {
    Help,
    CurrentHijriDate,
    WelcomeMessage,
    WhiteDaysNotification,
    ErrorGeneral,
    ErrorScheduleWhiteDaysMessage,
    ErrorCurrentDate,
    MonthMuharram,
    MonthSafar,
    MonthRabiAlAwwal,
    MonthRabiAlThani,
    MonthJumadaAlAwwal,
    MonthJumadaAlThani,
    MonthRajab,
    MonthShaaban,
    MonthRamadan,
    MonthShawwal,
    MonthDhuAlQiDah,
    MonthDhuAlHijjah,
    MonthUnknown,
}

impl TranslationKey {
    /// The key as it stands in the message files.
    pub open spec fn spec_str(self) -> Seq<char> {
        match self {
            TranslationKey::Help => "help"@,
            TranslationKey::CurrentHijriDate => "current_hijri_date"@,
            TranslationKey::WelcomeMessage => "welcome_message"@,
            TranslationKey::WhiteDaysNotification => "white_days_notification"@,
            TranslationKey::ErrorGeneral => "error_general"@,
            TranslationKey::ErrorScheduleWhiteDaysMessage => "error_schedule_white_days_message"@,
            TranslationKey::ErrorCurrentDate => "error_current_date"@,
            TranslationKey::MonthMuharram => "month_muharram"@,
            TranslationKey::MonthSafar => "month_safar"@,
            TranslationKey::MonthRabiAlAwwal => "month_rabi_al_awwal"@,
            TranslationKey::MonthRabiAlThani => "month_rabi_al_thani"@,
            TranslationKey::MonthJumadaAlAwwal => "month_jumada_al_awwal"@,
            TranslationKey::MonthJumadaAlThani => "month_jumada_al_thani"@,
            TranslationKey::MonthRajab => "month_rajab"@,
            TranslationKey::MonthShaaban => "month_shaaban"@,
            TranslationKey::MonthRamadan => "month_ramadan"@,
            TranslationKey::MonthShawwal => "month_shawwal"@,
            TranslationKey::MonthDhuAlQiDah => "month_dhu_al_qi_dah"@,
            TranslationKey::MonthDhuAlHijjah => "month_dhu_al_hijjah"@,
            TranslationKey::MonthUnknown => "month_unknown"@,
        }
    }

    /// The key as it stands in the message files.
    pub fn as_str(&self) -> (r: &'static str)
        ensures
            r@ == self.spec_str(),
    {
        match self {
            TranslationKey::Help => "help",
            TranslationKey::CurrentHijriDate => "current_hijri_date",
            TranslationKey::WelcomeMessage => "welcome_message",
            TranslationKey::WhiteDaysNotification => "white_days_notification",
            TranslationKey::ErrorGeneral => "error_general",
            TranslationKey::ErrorScheduleWhiteDaysMessage => "error_schedule_white_days_message",
            TranslationKey::ErrorCurrentDate => "error_current_date",
            TranslationKey::MonthMuharram => "month_muharram",
            TranslationKey::MonthSafar => "month_safar",
            TranslationKey::MonthRabiAlAwwal => "month_rabi_al_awwal",
            TranslationKey::MonthRabiAlThani => "month_rabi_al_thani",
            TranslationKey::MonthJumadaAlAwwal => "month_jumada_al_awwal",
            TranslationKey::MonthJumadaAlThani => "month_jumada_al_thani",
            TranslationKey::MonthRajab => "month_rajab",
            TranslationKey::MonthShaaban => "month_shaaban",
            TranslationKey::MonthRamadan => "month_ramadan",
            TranslationKey::MonthShawwal => "month_shawwal",
            TranslationKey::MonthDhuAlQiDah => "month_dhu_al_qi_dah",
            TranslationKey::MonthDhuAlHijjah => "month_dhu_al_hijjah",
            TranslationKey::MonthUnknown => "month_unknown",
        }
    }

    /// The key of the name of a month of the Hijri year; numbers other
    /// than 1 to 12 have the key of the unknown month.
    pub open spec fn spec_of_month(month: u8) -> TranslationKey {
        if month == 1 {
            TranslationKey::MonthMuharram
        } else if month == 2 {
            TranslationKey::MonthSafar
        } else if month == 3 {
            TranslationKey::MonthRabiAlAwwal
        } else if month == 4 {
            TranslationKey::MonthRabiAlThani
        } else if month == 5 {
            TranslationKey::MonthJumadaAlAwwal
        } else if month == 6 {
            TranslationKey::MonthJumadaAlThani
        } else if month == 7 {
            TranslationKey::MonthRajab
        } else if month == 8 {
            TranslationKey::MonthShaaban
        } else if month == 9 {
            TranslationKey::MonthRamadan
        } else if month == 10 {
            TranslationKey::MonthShawwal
        } else if month == 11 {
            TranslationKey::MonthDhuAlQiDah
        } else if month == 12 {
            TranslationKey::MonthDhuAlHijjah
        } else {
            TranslationKey::MonthUnknown
        }
    }

    /// The key of the name of a month of the Hijri year.
    pub fn of_month(month: u8) -> (r: TranslationKey)
        ensures
            r == TranslationKey::spec_of_month(month),
    {
        match month {
            1 => TranslationKey::MonthMuharram,
            2 => TranslationKey::MonthSafar,
            3 => TranslationKey::MonthRabiAlAwwal,
            4 => TranslationKey::MonthRabiAlThani,
            5 => TranslationKey::MonthJumadaAlAwwal,
            6 => TranslationKey::MonthJumadaAlThani,
            7 => TranslationKey::MonthRajab,
            8 => TranslationKey::MonthShaaban,
            9 => TranslationKey::MonthRamadan,
            10 => TranslationKey::MonthShawwal,
            11 => TranslationKey::MonthDhuAlQiDah,
            12 => TranslationKey::MonthDhuAlHijjah,
            _ => TranslationKey::MonthUnknown,
        }
    }
}

/// The messages of one language: a text under each key, and no key twice.
///
/// Its value is the finite map from each key to its text.
pub struct Messages {
    entries: Vec<(String, String)>,
}

impl View for Messages {
    type V = Map<Seq<char>, Seq<char>>;

    closed spec fn view(&self) -> Map<Seq<char>, Seq<char>> {
        Map::new(
            |k: Seq<char>| exists|i: int| 0 <= i < self.entries@.len() && self.entries@[i].0@ == k,
            |k: Seq<char>|
                self.entries@[choose|i: int|
                    0 <= i < self.entries@.len() && self.entries@[i].0@ == k].1@,
        )
    }
}

/// The map that pairs of key and text make when they are inserted one
/// after the other: of two texts under one key, the later stays.
pub open spec fn message_map(pairs: Seq<(String, String)>) -> Map<Seq<char>, Seq<char>>
    decreases pairs.len(),
{
    if pairs.len() == 0 {
        Map::empty()
    } else {
        message_map(pairs.drop_last()).insert(pairs.last().0@, pairs.last().1@)
    }
}

impl Messages {
    /// No key occurs twice.
    #[verifier::type_invariant]
    closed spec fn keys_distinct(&self) -> bool {
        forall|i: int, j: int|
            0 <= i < j < self.entries@.len() ==> self.entries@[i].0@ != self.entries@[j].0@
    }

    /// The entry at a position is the one the map holds under that
    /// position's key.
    proof fn lemma_position(&self, i: int)
        requires
            self.keys_distinct(),
            0 <= i < self.entries@.len(),
        ensures
            self@.contains_key(self.entries@[i].0@),
            self@[self.entries@[i].0@] == self.entries@[i].1@,
    {
        let k = self.entries@[i].0@;
        let j = choose|j: int| 0 <= j < self.entries@.len() && self.entries@[j].0@ == k;
        assert(j == i);
    }

    /// Every key of the map stands at some position.
    proof fn lemma_key(&self, k: Seq<char>) -> (i: int)
        requires
            self.keys_distinct(),
            self@.contains_key(k),
        ensures
            0 <= i < self.entries@.len(),
            self.entries@[i].0@ == k,
            self.entries@[i].1@ == self@[k],
    {
        choose|i: int| 0 <= i < self.entries@.len() && self.entries@[i].0@ == k
    }

    /// No messages.
    pub fn new() -> (m: Messages)
        ensures
            m@ == Map::<Seq<char>, Seq<char>>::empty(),
    {
        let m = Messages { entries: Vec::new() };
        assert(m@ =~= Map::<Seq<char>, Seq<char>>::empty());
        m
    }

    /// Where a key stands, if it has a text.
    fn position(&self, key: &String) -> (r: Option<usize>)
        ensures
            match r {
                Some(i) => i < self.entries@.len() && self.entries@[i as int].0@ == key@
                    && self@.contains_key(key@) && self@[key@] == self.entries@[i as int].1@,
                None => !self@.contains_key(key@),
            },
    {
        proof {
            use_type_invariant(self);
        }
        let mut i: usize = 0;
        while i < self.entries.len()
            invariant
                self.keys_distinct(),
                i <= self.entries@.len(),
                forall|j: int| 0 <= j < i ==> self.entries@[j].0@ != key@,
            decreases self.entries@.len() - i,
        {
            if self.entries[i].0 == *key {
                proof {
                    self.lemma_position(i as int);
                }
                return Some(i);
            }
            i += 1;
        }
        None
    }

    /// The text under a key, if the key has one.
    pub fn get(&self, key: &str) -> (r: Option<String>)
        ensures
            match r {
                Some(text) => self@.contains_key(key@) && text@ == self@[key@],
                None => !self@.contains_key(key@),
            },
    {
        let wanted = key.to_owned();
        match self.position(&wanted) {
            Some(i) => Some(self.entries[i].1.clone()),
            None => None,
        }
    }

    /// Puts a text under a key, in place of the text that was there, if any.
    pub fn insert(&mut self, key: String, text: String)
        ensures
            final(self)@ == old(self)@.insert(key@, text@),
    {
        proof {
            use_type_invariant(&*self);
        }
        let ghost before = *self;
        let found = self.position(&key);
        let mut entries: Vec<(String, String)> = Vec::new();
        std::mem::swap(&mut self.entries, &mut entries);
        let ghost n = before.entries@.len() as int;
        let ghost at = match found {
            Some(i) => i as int,
            None => n,
        };
        match found {
            Some(i) => {
                entries.set(i, (key, text));
            },
            None => {
                entries.push((key, text));
            },
        }
        proof {
            assert(entries@[at].0@ == key@ && entries@[at].1@ == text@);
            assert forall|a: int| 0 <= a < n && a != at implies #[trigger] entries@[a]
                == before.entries@[a] by {}
            assert forall|a: int, b: int| 0 <= a < b < entries@.len() implies entries@[a].0@
                != entries@[b].0@ by {
                if a < n && before.entries@[a].0@ == key@ {
                    before.lemma_position(a);
                }
                if b < n && before.entries@[b].0@ == key@ {
                    before.lemma_position(b);
                }
            }
        }
        std::mem::swap(&mut self.entries, &mut entries);
        proof {
            assert forall|k: Seq<char>| #[trigger] self@.contains_key(k) implies before@.insert(
                key@,
                text@,
            ).contains_key(k) && self@[k] == before@.insert(key@, text@)[k] by {
                let j = self.lemma_key(k);
                if j != at {
                    assert(before.entries@[j] == self.entries@[j]);
                    before.lemma_position(j);
                }
            }
            assert forall|k: Seq<char>| #[trigger]
                before@.insert(key@, text@).contains_key(k) implies self@.contains_key(k) by {
                if k == key@ {
                    self.lemma_position(at);
                } else {
                    let j = before.lemma_key(k);
                    assert(self.entries@[j] == before.entries@[j]);
                }
            }
            assert(self@ =~= before@.insert(key@, text@));
        }
    }

    /// The messages that pairs of key and text make, inserted in their order.
    pub fn from_pairs(pairs: Vec<(String, String)>) -> (m: Messages)
        ensures
            m@ == message_map(pairs@),
    {
        let mut m = Messages::new();
        let mut i: usize = 0;
        proof {
            assert(pairs@.take(0) =~= Seq::<(String, String)>::empty());
        }
        while i < pairs.len()
            invariant
                i <= pairs@.len(),
                m@ == message_map(pairs@.take(i as int)),
            decreases pairs@.len() - i,
        {
            proof {
                pairs@.lemma_take_succ_push(i as int);
                assert(pairs@.take(i + 1).drop_last() =~= pairs@.take(i as int));
                assert(pairs@.take(i + 1).last() == pairs@[i as int]);
            }
            m.insert(pairs[i].0.clone(), pairs[i].1.clone());
            i += 1;
        }
        proof {
            pairs@.lemma_take_len();
        }
        m
    }
}

/// A message with its arguments filled in, one after the other: each
/// argument replaces its placeholder wherever the text holds it by then.
pub open spec fn with_args(text: Seq<char>, args: Seq<(String, String)>) -> Seq<char>
    decreases args.len(),
{
    if args.len() == 0 {
        text
    } else {
        replace_all(
            with_args(text, args.drop_last()),
            placeholder_of(args.last().0@),
            args.last().1@,
        )
    }
}

/// The messages of every language, no language twice, and the language in use.
pub struct I18n {
    translations: Vec<(Language, Messages)>,
    current_language: Language,
}

impl I18n {
    /// No language occurs twice.
    #[verifier::type_invariant]
    closed spec fn languages_distinct(&self) -> bool {
        forall|i: int, j: int|
            0 <= i < j < self.translations@.len() ==> self.translations@[i].0
                != self.translations@[j].0
    }

    /// The language in use.
    pub closed spec fn language(&self) -> Language {
        self.current_language
    }

    /// The messages that were loaded: a map from key to text for each
    /// language that has one.
    pub closed spec fn catalogs(&self) -> Map<Language, Map<Seq<char>, Seq<char>>> {
        Map::new(
            |l: Language|
                exists|i: int| 0 <= i < self.translations@.len() && self.translations@[i].0 == l,
            |l: Language|
                self.translations@[choose|i: int|
                    0 <= i < self.translations@.len() && self.translations@[i].0 == l].1@,
        )
    }

    /// The text of a key in the language in use; the key itself where the
    /// language has no messages or none under the key.
    pub open spec fn translation(&self, key: Seq<char>) -> Seq<char> {
        if self.catalogs().contains_key(self.language()) && self.catalogs()[self.language()].contains_key(
            key,
        ) {
            self.catalogs()[self.language()][key]
        } else {
            key
        }
    }

    /// The messages of the one language there is, which is the one in use.
    /// Of two texts under one key, the later counts.
    pub fn new(messages: Vec<(String, String)>) -> (r: I18n)
        ensures
            r.language() == Language::Ba,
            r.catalogs() == Map::<Language, Map<Seq<char>, Seq<char>>>::empty().insert(
                Language::Ba,
                message_map(messages@),
            ),
    {
        let mut translations: Vec<(Language, Messages)> = Vec::new();
        translations.push((Language::Ba, Messages::from_pairs(messages)));
        let r = I18n { translations, current_language: Language::Ba };
        proof {
            assert(r.translations@[0].0 == Language::Ba);
            assert(r.catalogs() =~= Map::<Language, Map<Seq<char>, Seq<char>>>::empty().insert(
                Language::Ba,
                message_map(messages@),
            ));
        }
        r
    }

    pub fn set_language(&mut self, language: Language)
        ensures
            final(self).language() == language,
            final(self).catalogs() == old(self).catalogs(),
    {
        proof {
            use_type_invariant(&*self);
        }
        self.current_language = language;
    }

    /// The text of a key in the language in use.
    pub fn t(&self, key: &str) -> (r: String)
        ensures
            r@ == self.translation(key@),
    {
        proof {
            use_type_invariant(self);
        }
        let mut i: usize = 0;
        while i < self.translations.len()
            invariant
                self.languages_distinct(),
                i <= self.translations@.len(),
                forall|j: int| 0 <= j < i ==> self.translations@[j].0 != self.current_language,
            decreases self.translations@.len() - i,
        {
            if self.translations[i].0 == self.current_language {
                proof {
                    let l = self.current_language;
                    let j = choose|j: int|
                        0 <= j < self.translations@.len() && self.translations@[j].0 == l;
                    assert(j == i);
                }
                return match self.translations[i].1.get(key) {
                    Some(text) => text,
                    None => key.to_owned(),
                };
            }
            i += 1;
        }
        key.to_owned()
    }

    /// The text of a key with arguments filled in: each argument, a name
    /// and a value, replaces the name in braces, in the order given.
    pub fn t_with_args(&self, key: &str, args: Vec<(String, String)>) -> (r: String)
        ensures
            r@ == with_args(self.translation(key@), args@),
    {
        let mut translation = self.t(key);
        let mut i: usize = 0;
        proof {
            assert(args@.take(0) =~= Seq::<(String, String)>::empty());
        }
        while i < args.len()
            invariant
                i <= args@.len(),
                translation@ == with_args(self.translation(key@), args@.take(i as int)),
            decreases args@.len() - i,
        {
            proof {
                args@.lemma_take_succ_push(i as int);
                assert(args@.take(i + 1).drop_last() =~= args@.take(i as int));
                assert(args@.take(i + 1).last() == args@[i as int]);
            }
            let pattern = placeholder(args[i].0.as_str());
            translation = replace_text(translation.as_str(), pattern.as_str(), args[i].1.as_str());
            i += 1;
        }
        proof {
            args@.lemma_take_len();
        }
        translation
    }
}

} // verus!
