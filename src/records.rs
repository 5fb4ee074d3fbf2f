use vstd::prelude::*;

verus! {

/// An error as handed to the UI: its message.
#[derive(Debug)]
pub struct ErrorType(pub String);

impl View for ErrorType {
    type V = Seq<char>;

    closed spec fn view(&self) -> Seq<char> {
        self.0@
    }
}

impl ErrorType {
    pub fn message(&self) -> (r: &String)
        ensures
            r@ == self@,
    {
        &self.0
    }
}

impl From<String> for ErrorType {
    fn from(t: String) -> (r: ErrorType) {
        ErrorType(t)
    }
}

impl vstd::std_specs::convert::FromSpecImpl<String> for ErrorType {
    open spec fn obeys_from_spec() -> bool {
        true
    }

    open spec fn from_spec(v: String) -> ErrorType {
        ErrorType(v)
    }
}

/// Query of the leaderboard: how many rows, in which order, from where, of
/// which value, for which player slot.
pub struct LeaderboardGetParams {
    pub count: Option<i64>,
    pub ascending: Option<bool>,
    pub value_name: Option<String>,
    pub offset: Option<i64>,
    pub player_slot: Option<i16>,
}

/// Query of save data: one file by name, or every file whose name matches a
/// regular expression, for a player slot.
pub struct SaveDataGetParams {
    pub file_name: Option<String>,
    pub regex: Option<String>,
    pub player_slot: Option<i16>,
}

/// The first version's query of save data, with the same fields.
pub struct SaveDataGetParamsV1 {
    pub file_name: Option<String>,
    pub regex: Option<String>,
    pub player_slot: Option<i16>,
}

pub open spec fn both_filters_message() -> Seq<char> {
    "Save data can only be searched by file name or matching a regular expression, not both"@
}

/// A save-data query names a file or gives a pattern, never both.
pub fn validate_save_data_params(file_name: &Option<String>, regx: &Option<String>) -> (r: Result<
    (),
    ErrorType,
>)
    ensures
        r is Err <==> (file_name is Some && regx is Some),
        r matches Err(e) ==> e@ == both_filters_message(),
{
    match (file_name, regx) {
        (Some(_), Some(_)) => Err(
            ErrorType(
                "Save data can only be searched by file name or matching a regular expression, not both".to_owned(),
            ),
        ),
        _ => Ok(()),
    }
}

impl SaveDataGetParams {
    /// The query is well formed: see `validate_save_data_params`.
    pub fn validate(&self) -> (r: Result<(), ErrorType>)
        ensures
            r is Err <==> (self.file_name is Some && self.regex is Some),
            r matches Err(e) ==> e@ == both_filters_message(),
    {
        validate_save_data_params(&self.file_name, &self.regex)
    }
}

/// A game as the store records it.
#[derive(Debug, PartialEq, Eq)]
pub struct Game {
    pub id: String,
    pub name: String,
    pub installed: bool,
}

/// A user as the store records it.
#[derive(Debug, PartialEq, Eq)]
pub struct User {
    pub id: String,
    pub username: String,
    pub rit_id: Option<String>,
}

/// The id that a game's metadata gets when it gives none.
pub fn id_default() -> (r: String)
    ensures
        r@ == "0"@,
{
    "0".to_owned()
}

/// The games that a fresh store is seeded with: `game1` with id `1` and
/// `game0` with id `0`, both installed.
pub fn setup_initial_game_data() -> (r: Vec<Game>)
    ensures
        r@.len() == 2,
        r@[0].id@ == "1"@ && r@[0].name@ == "game1"@ && r@[0].installed,
        r@[1].id@ == "0"@ && r@[1].name@ == "game0"@ && r@[1].installed,
{
    let mut games: Vec<Game> = Vec::new();
    games.push(Game { id: "1".to_owned(), name: "game1".to_owned(), installed: true });
    games.push(Game { id: "0".to_owned(), name: "game0".to_owned(), installed: true });
    games
}

/// The users that a fresh store is seeded with: `user1` with id `1` and
/// `user2` with id `2`, neither with a university id.
pub fn setup_initial_user_data() -> (r: Vec<User>)
    ensures
        r@.len() == 2,
        r@[0].id@ == "1"@ && r@[0].username@ == "user1"@ && r@[0].rit_id is None,
        r@[1].id@ == "2"@ && r@[1].username@ == "user2"@ && r@[1].rit_id is None,
{
    let mut users: Vec<User> = Vec::new();
    users.push(User { id: "1".to_owned(), username: "user1".to_owned(), rit_id: None });
    users.push(User { id: "2".to_owned(), username: "user2".to_owned(), rit_id: None });
    users
}

} // verus!
