//! Musical genres of the catalog.

use vstd::prelude::*;

verus! {

/// The genre of a track.
#[derive(Debug, Clone, PartialEq, Eq, Structural)]
pub enum Genre {
    Opera,
    FilmScore,
    Chamber,
    Orchestral,
    Keyboard,
    Choral,
    Other,
}

/// Every genre, in the order in which they are offered to the user.
pub open spec fn spec_all_genres() -> Seq<Genre> {
    seq![
        Genre::Opera,
        Genre::FilmScore,
        Genre::Chamber,
        Genre::Orchestral,
        Genre::Keyboard,
        Genre::Choral,
        Genre::Other,
    ]
}

impl Genre {
    /// The human-readable name of the genre.
    pub open spec fn spec_label(self) -> Seq<char> {
        match self {
            Genre::Opera => "Opera"@,
            Genre::FilmScore => "Film Score"@,
            Genre::Chamber => "Chamber"@,
            Genre::Orchestral => "Orchestral"@,
            Genre::Keyboard => "Keyboard"@,
            Genre::Choral => "Choral"@,
            Genre::Other => "Other"@,
        }
    }

    /// Human-readable name, as shown in the genre filter and on track cards.
    pub fn label(&self) -> (r: &'static str)
        ensures
            r@ == self.spec_label(),
    {
        match self {
            Genre::Opera => "Opera",
            Genre::FilmScore => "Film Score",
            Genre::Chamber => "Chamber",
            Genre::Orchestral => "Orchestral",
            Genre::Keyboard => "Keyboard",
            Genre::Choral => "Choral",
            Genre::Other => "Other",
        }
    }

    /// The same genre, by value.
    pub(crate) fn copied(&self) -> (r: Genre)
        ensures
            r == *self,
    {
        match self {
            Genre::Opera => Genre::Opera,
            Genre::FilmScore => Genre::FilmScore,
            Genre::Chamber => Genre::Chamber,
            Genre::Orchestral => Genre::Orchestral,
            Genre::Keyboard => Genre::Keyboard,
            Genre::Choral => Genre::Choral,
            Genre::Other => Genre::Other,
        }
    }

    /// Every genre, each once.
    pub fn all() -> (r: &'static [Genre])
        ensures
            r@ == spec_all_genres(),
    {
        &[
            Genre::Opera,
            Genre::FilmScore,
            Genre::Chamber,
            Genre::Orchestral,
            Genre::Keyboard,
            Genre::Choral,
            Genre::Other,
        ]
    }
}

/// Law: the list of all genres holds every genre, and holds it once.
pub proof fn lemma_all_genres_listed_once(g: Genre)
    ensures
        spec_all_genres().contains(g),
        forall|i: int, j: int|
            0 <= i < j < spec_all_genres().len() ==> spec_all_genres()[i] != spec_all_genres()[j],
{
    let all = spec_all_genres();
    match g {
        Genre::Opera => assert(all[0] == g),
        Genre::FilmScore => assert(all[1] == g),
        Genre::Chamber => assert(all[2] == g),
        Genre::Orchestral => assert(all[3] == g),
        Genre::Keyboard => assert(all[4] == g),
        Genre::Choral => assert(all[5] == g),
        Genre::Other => assert(all[6] == g),
    }
}

/// The length and first two characters of a genre's label, which already
/// tell the genres apart.
proof fn lemma_label_prefix(g: Genre)
    ensures
        g.spec_label().len() >= 2,
        match g {
            Genre::Opera => g.spec_label().len() == 5 && g.spec_label()[1] == 'p',
            Genre::FilmScore => g.spec_label().len() == 10 && g.spec_label()[0] == 'F',
            Genre::Chamber => g.spec_label().len() == 7,
            Genre::Orchestral => g.spec_label().len() == 10 && g.spec_label()[0] == 'O',
            Genre::Keyboard => g.spec_label().len() == 8,
            Genre::Choral => g.spec_label().len() == 6,
            Genre::Other => g.spec_label().len() == 5 && g.spec_label()[1] == 't',
        },
{
    reveal_strlit("Opera");
    reveal_strlit("Film Score");
    reveal_strlit("Chamber");
    reveal_strlit("Orchestral");
    reveal_strlit("Keyboard");
    reveal_strlit("Choral");
    reveal_strlit("Other");
}

/// Law: no two genres share a label, so a label names its genre.
pub proof fn lemma_labels_distinct(a: Genre, b: Genre)
    ensures
        a.spec_label() == b.spec_label() ==> a == b,
{
    lemma_label_prefix(a);
    lemma_label_prefix(b);
    if a.spec_label() == b.spec_label() {
        assert(a.spec_label()[0] == b.spec_label()[0]);
        assert(a.spec_label()[1] == b.spec_label()[1]);
    }
}

} // verus!
