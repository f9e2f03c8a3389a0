//! The catalog of known games, and the selection of one of them.
//!
//! A catalog document is an object with a `games` array. A game is an object
//! with the texts `hash`, `name`, `engine` and `location`, the unsigned number
//! `uploaded`, and the object `uploader` with the texts `name` and `link`.

use crate::error::LoadError;
use crate::json::{Json, json_of};
use crate::text::same_text;
use crate::transport::{is_success, status_is_success};
use vstd::prelude::*;

verus! {

/// Who uploaded the layout documents of a game.
#[derive(Debug, PartialEq, Eq)]
pub struct Uploader {
    pub name: String,
    pub link: String,
}

/// One game of the catalog.
#[derive(Debug, PartialEq, Eq)]
pub struct Game {
    /// The opaque identifier of the game.
    pub hash: String,
    /// The display name of the game.
    pub name: String,
    /// The engine; the first part of the address of the game's documents.
    pub engine: String,
    /// The location; the second part of the address of the game's documents.
    pub location: String,
    /// When the documents were uploaded, in seconds since the Unix epoch.
    pub uploaded: u64,
    pub uploader: Uploader,
}

/// The catalog: the known games, in document order.
#[derive(Debug, PartialEq, Eq)]
pub struct GameList {
    pub games: Vec<Game>,
}

/// The text of the member `name` of an object.
pub open spec fn text_field(object: Json, name: Seq<char>) -> Option<String> {
    match object.spec_field(name) {
        Some(Json::Text(text)) => Some(text),
        _ => None,
    }
}

/// The uploader that an object describes.
pub open spec fn uploader_of(object: Json) -> Option<Uploader> {
    match (text_field(object, "name"@), text_field(object, "link"@)) {
        (Some(name), Some(link)) => Some(Uploader { name, link }),
        _ => None,
    }
}

/// The game that an object describes.
pub open spec fn game_of(object: Json) -> Option<Game> {
    match (
        text_field(object, "hash"@),
        text_field(object, "name"@),
        text_field(object, "engine"@),
        text_field(object, "location"@),
        object.spec_field("uploaded"@),
        object.spec_field("uploader"@),
    ) {
        (Some(hash), Some(name), Some(engine), Some(location), Some(uploaded), Some(uploader)) => {
            match (uploaded.spec_u64(), uploader_of(uploader)) {
                (Some(uploaded), Some(uploader)) => Some(
                    Game { hash, name, engine, location, uploaded, uploader },
                ),
                _ => None,
            }
        },
        _ => None,
    }
}

/// The games that a catalog document lists, in order; `None` where the
/// document or any one of its games is malformed.
pub open spec fn catalog_of(doc: Json) -> Option<Seq<Game>> {
    match doc.spec_field("games"@) {
        Some(Json::Array(items)) => {
            if forall|i: int| 0 <= i < items@.len() ==> (#[trigger] game_of(items@[i])) is Some {
                Some(items@.map_values(|item: Json| game_of(item).unwrap()))
            } else {
                None
            }
        },
        _ => None,
    }
}

/// The games of a catalog document given as text; a text that is not JSON
/// is refused for its syntax, a document that is no catalog as malformed.
pub open spec fn catalog_text_of(text: Seq<char>) -> Result<Seq<Game>, LoadError> {
    match json_of(text) {
        None => Err(LoadError::Syntax),
        Some(doc) => match catalog_of(doc) {
            Some(games) => Ok(games),
            None => Err(LoadError::Malformed),
        },
    }
}

/// The games of the catalog, from the status and the text of the server's
/// answer, where `None` stands for a text that could not be read. The status
/// is looked at first: an answer without success is refused for its status,
/// whatever became of its text.
pub open spec fn catalog_response_of(status: u16, text: Option<Seq<char>>) -> Result<
    Seq<Game>,
    LoadError,
> {
    if !is_success(status) {
        Err(LoadError::Status(status))
    } else {
        match text {
            Some(text) => catalog_text_of(text),
            None => Err(LoadError::Unreadable),
        }
    }
}

/// The first game that the predicate holds of.
pub open spec fn first_game(games: Seq<Game>, wanted: spec_fn(Game) -> bool) -> Option<Game>
    decreases games.len(),
{
    if games.len() == 0 {
        None
    } else if wanted(games[0]) {
        Some(games[0])
    } else {
        first_game(games.drop_first(), wanted)
    }
}

/// Holds of the games with the given identifier.
pub open spec fn has_hash(hash: Seq<char>) -> spec_fn(Game) -> bool {
    |game: Game| game.hash@ == hash
}

/// Holds of the games with the given display name.
pub open spec fn has_name(name: Seq<char>) -> spec_fn(Game) -> bool {
    |game: Game| game.name@ == name
}

/// Reads the text of the member `name` of an object.
fn read_text(object: &Json, name: &str) -> (r: Option<String>)
    ensures
        r == text_field(*object, name@),
{
    match object.get(name) {
        Some(Json::Text(text)) => Some(text.clone()),
        _ => None,
    }
}

impl Uploader {
    /// Decodes an uploader.
    pub fn decode(object: &Json) -> (r: Option<Uploader>)
        ensures
            r == uploader_of(*object),
    {
        let name = read_text(object, "name")?;
        let link = read_text(object, "link")?;
        Some(Uploader { name, link })
    }
}

impl Game {
    /// Decodes a game.
    pub fn decode(object: &Json) -> (r: Option<Game>)
        ensures
            r == game_of(*object),
    {
        let hash = read_text(object, "hash")?;
        let name = read_text(object, "name")?;
        let engine = read_text(object, "engine")?;
        let location = read_text(object, "location")?;
        let uploaded = object.get("uploaded")?.as_u64()?;
        let uploader = Uploader::decode(object.get("uploader")?)?;
        Some(Game { hash, name, engine, location, uploaded, uploader })
    }
}

impl GameList {
    /// Decodes a catalog document. A document that is not a catalog is
    /// malformed.
    pub fn decode(doc: &Json) -> (r: Result<GameList, LoadError>)
        ensures
            match catalog_of(*doc) {
                Some(games) => r is Ok && r.unwrap().games@ == games,
                None => r == Err::<GameList, LoadError>(LoadError::Malformed),
            },
    {
        let items = match doc.get("games") {
            Some(Json::Array(items)) => items,
            _ => {
                return Err(LoadError::Malformed);
            },
        };
        let mut games: Vec<Game> = Vec::new();
        let mut i: usize = 0;
        while i < items.len()
            invariant
                i <= items.len(),
                doc.spec_field("games"@) == Some(Json::Array(*items)),
                forall|j: int| 0 <= j < i ==> (#[trigger] game_of(items@[j])) is Some,
                games@ == items@.take(i as int).map_values(|item: Json| game_of(item).unwrap()),
            decreases items.len() - i,
        {
            match Game::decode(&items[i]) {
                Some(game) => {
                    games.push(game);
                },
                None => {
                    return Err(LoadError::Malformed);
                },
            }
            assert(games@ =~= items@.take(i + 1).map_values(|item: Json| game_of(item).unwrap()));
            i += 1;
        }
        assert(items@.take(i as int) == items@);
        Ok(GameList { games })
    }

    /// Reads a catalog from the text of a catalog document.
    pub fn parse(text: &str) -> (r: Result<GameList, LoadError>)
        ensures
            match catalog_text_of(text@) {
                Ok(games) => r is Ok && r.unwrap().games@ == games,
                Err(e) => r == Err::<GameList, LoadError>(e),
            },
    {
        match Json::parse(text) {
            Some(doc) => GameList::decode(&doc),
            None => Err(LoadError::Syntax),
        }
    }

    /// Reads a catalog from the status and the text of the server's answer.
    pub fn from_response(status: u16, text: Option<&str>) -> (r: Result<GameList, LoadError>)
        ensures
            match catalog_response_of(
                status,
                match text {
                    Some(text) => Some(text@),
                    None => None,
                },
            ) {
                Ok(games) => r is Ok && r.unwrap().games@ == games,
                Err(e) => r == Err::<GameList, LoadError>(e),
            },
    {
        if !status_is_success(status) {
            Err(LoadError::Status(status))
        } else {
            match text {
                Some(text) => GameList::parse(text),
                None => Err(LoadError::Unreadable),
            }
        }
    }

    /// The first game with the given identifier.
    pub fn get_game_by_hash(&self, hash: &str) -> (r: Option<&Game>)
        ensures
            r is Some == first_game(self.games@, has_hash(hash@)) is Some,
            r is Some ==> *r.unwrap() == first_game(self.games@, has_hash(hash@)).unwrap(),
    {
        let ghost wanted = has_hash(hash@);
        let mut i: usize = 0;
        assert(self.games@.skip(0) == self.games@);
        while i < self.games.len()
            invariant
                i <= self.games.len(),
                wanted == has_hash(hash@),
                first_game(self.games@, wanted) == first_game(self.games@.skip(i as int), wanted),
            decreases self.games.len() - i,
        {
            assert(self.games@.skip(i as int)[0] == self.games@[i as int]);
            assert(wanted(self.games@[i as int]) == (self.games@[i as int].hash@ == hash@));
            if same_text(self.games[i].hash.as_str(), hash) {
                return Some(&self.games[i]);
            }
            assert(self.games@.skip(i as int).drop_first() == self.games@.skip(i + 1));
            i += 1;
        }
        None
    }

    /// The first game with the given display name.
    pub fn get_game_by_name(&self, name: &str) -> (r: Option<&Game>)
        ensures
            r is Some == first_game(self.games@, has_name(name@)) is Some,
            r is Some ==> *r.unwrap() == first_game(self.games@, has_name(name@)).unwrap(),
    {
        let ghost wanted = has_name(name@);
        let mut i: usize = 0;
        assert(self.games@.skip(0) == self.games@);
        while i < self.games.len()
            invariant
                i <= self.games.len(),
                wanted == has_name(name@),
                first_game(self.games@, wanted) == first_game(self.games@.skip(i as int), wanted),
            decreases self.games.len() - i,
        {
            assert(self.games@.skip(i as int)[0] == self.games@[i as int]);
            assert(wanted(self.games@[i as int]) == (self.games@[i as int].name@ == name@));
            if same_text(self.games[i].name.as_str(), name) {
                return Some(&self.games[i]);
            }
            assert(self.games@.skip(i as int).drop_first() == self.games@.skip(i + 1));
            i += 1;
        }
        None
    }
}

} // verus!
