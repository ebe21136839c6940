use vstd::prelude::*;
use vstd::string::StringExecFns;

verus! {

/// Address of the conferencing server.
pub const SERVER_URL: &'static str = "wss://nostrnests.com";

/// Egress of one room: the room's audio, mixed and published as a live
/// stream.
pub struct Egress {
    room: String,
}

impl View for Egress {
    type V = Seq<char>;

    /// The room's identifier.
    closed spec fn view(&self) -> Seq<char> {
        self.room@
    }
}

impl Egress {
    pub fn new(room: String) -> (egress: Self)
        ensures
            egress@ == room@,
    {
        Self { room }
    }

    /// The room's identifier.
    pub fn room(&self) -> (room: &String)
        ensures
            room@ == self@,
    {
        &self.room
    }

    /// Where a guest's access token for the room is asked for.
    pub fn guest_auth_url(&self) -> (url: String)
        ensures
            url@ == "https://nostrnests.com/api/v1/nests/"@ + self@ + "/guest"@,
    {
        let base = String::from_str("https://nostrnests.com/api/v1/nests/");
        base.concat(self.room.as_str()).concat("/guest")
    }
}

} // verus!
