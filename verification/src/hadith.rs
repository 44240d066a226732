//! The texts of the hadith bot.

use vstd::prelude::*;
use vstd::string::*;

verus! {

/// The name the bot goes by where the messaging service knows none.
pub const DEFAULT_BOT_NAME: &'static str = "Dnevni Hadis";

/// The list of commands.
pub const HELP_TEXT: &'static str =
    "Dostupne komande:\n\n/help - Prikaži postojeće komande\n/hadis - Prikaži nasumični hadis";

/// The answer to a command that failed.
pub const ERROR_TEXT: &'static str = "Dogodila se greška. Pokušajte kasnije.";

/// The daily message where no hadith could be fetched.
pub const RETRY_TEXT: &'static str = "Dogodila se greška. Pokušajte ponovo kasnije.";

/// A hadith with its book, as one query selects it.
#[derive(Clone, Debug, PartialEq, Eq)]
pub struct Hadith {
    pub id: u128,
    pub text_bos: String,
    pub transmitters_text: String,
    pub hadith_numbers: Option<String>,
    pub book_title: String,
    pub book_author: String,
}

impl Hadith {
    /// The numbers of the hadith; the empty text where it has none.
    pub open spec fn numbers(&self) -> Seq<char> {
        match self.hadith_numbers {
            Some(numbers) => numbers@,
            None => Seq::empty(),
        }
    }

    /// The hadith as a message.
    pub open spec fn spec_message(&self) -> Seq<char> {
        self.transmitters_text@ + "\n\n"@ + self.text_bos@ + "\n\n\n"@ + self.book_author@ + ": "@
            + self.book_title@ + "\nHadis Broj: "@ + self.numbers()
    }

    /// The hadith as a message: the transmitters, the text, and below
    /// them the book and the numbers.
    pub fn message(&self) -> (r: String)
        ensures
            r@ == self.spec_message(),
    {
        let mut out = self.transmitters_text.clone();
        out.append("\n\n");
        out.append(self.text_bos.as_str());
        out.append("\n\n\n");
        out.append(self.book_author.as_str());
        out.append(": ");
        out.append(self.book_title.as_str());
        out.append("\nHadis Broj: ");
        match &self.hadith_numbers {
            Some(numbers) => {
                out.append(numbers.as_str());
            },
            None => {
                assert(out@ + Seq::<char>::empty() =~= out@);
            },
        }
        out
    }
}

/// The greeting of a bot of the given name.
pub open spec fn welcome_text(bot_name: Seq<char>) -> Seq<char> {
    "Es-selamu alejkum!\n\nJa sam "@ + bot_name
        + ". Svakog dana ću Vam slati jedan hadis.\nKoristite /help za listu komandi."@
}

/// The greeting that a new user gets.
pub fn welcome_message(bot_name: &str) -> (r: String)
    ensures
        r@ == welcome_text(bot_name@),
{
    let mut out = String::from_str("Es-selamu alejkum!\n\nJa sam ");
    out.append(bot_name);
    out.append(". Svakog dana ću Vam slati jedan hadis.\nKoristite /help za listu komandi.");
    out
}

} // verus!
