use vstd::prelude::*;

verus! {

/// A player's identity: an opaque string id; two players are equal exactly
/// when their ids are.
#[derive(Debug, Hash)]
pub struct Player {
    id: String,
}

impl View for Player {
    type V = Seq<char>;

    closed spec fn view(&self) -> Seq<char> {
        self.id@
    }
}

impl Player {
    pub fn new(id: String) -> (p: Player)
        ensures
            p@ == id@,
    {
        Player { id }
    }

    pub fn get_id(&self) -> (r: &str)
        ensures
            r@ == self@,
    {
        self.id.as_str()
    }

    /// The id as an owned string.
    pub fn id_string(&self) -> (r: String)
        ensures
            r@ == self@,
    {
        self.id.clone()
    }
}

impl PartialEq for Player {
    fn eq(&self, o: &Player) -> (r: bool) {
        self.id == o.id
    }
}

impl vstd::std_specs::cmp::PartialEqSpecImpl for Player {
    open spec fn obeys_eq_spec() -> bool {
        true
    }

    open spec fn eq_spec(&self, o: &Player) -> bool {
        self@ == o@
    }
}

impl Eq for Player {

}

/// Builds a player from a bare string scalar, as a deserializer hands it over.
pub struct PlayerVisitor {}

impl PlayerVisitor {
    pub fn new() -> PlayerVisitor {
        PlayerVisitor {  }
    }

    /// The player whose id is the borrowed string `v`.
    pub fn visit_str(&self, v: &str) -> (p: Player)
        ensures
            p@ == v@,
    {
        Player::new(String::from_str(v))
    }

    /// The player whose id is the owned string `v`.
    pub fn visit_string(&self, v: String) -> (p: Player)
        ensures
            p@ == v@,
    {
        Player::new(v)
    }
}

} // verus!
