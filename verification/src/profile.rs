//! User profiles and the avatar that goes with a name.
//!
//! A profile travels as a JSON object with the members `name`, `avatar` and
//! `bio`, each a string.
use vstd::prelude::*;
use crate::json::{json_parse, json_text, keys_distinct, lookup, Json, JsonView, MAX_NESTING};

verus! {

/// The avatar of the user named Miku.
pub const MIKU_AVATAR: &'static str =
    "https://raw.githubusercontent.com/hyvos07/yewchat/refs/heads/main/YewChat/static/miku.png";

/// The avatar of the user named Teto.
pub const TETO_AVATAR: &'static str =
    "https://raw.githubusercontent.com/hyvos07/yewchat/refs/heads/main/YewChat/static/teto.jpg";

/// The avatar of the user named Neru.
pub const NERU_AVATAR: &'static str =
    "https://raw.githubusercontent.com/hyvos07/yewchat/refs/heads/main/YewChat/static/neru.jpg";

/// The avatar of every name without one of its own.
pub const DEFAULT_AVATAR: &'static str = "https://api.dicebear.com/9.x/lorelei/svg";

/// The lower-case form of an ASCII capital; any other character is kept.
pub open spec fn ascii_lower(c: char) -> char {
    if 'A' <= c && c <= 'Z' {
        ((c as u8) + 32) as char
    } else {
        c
    }
}

/// A text with its ASCII capitals in lower case.
pub open spec fn lowercase(text: Seq<char>) -> Seq<char> {
    Seq::new(text.len(), |i: int| ascii_lower(text[i]))
}

/// The avatar that goes with a name. Three names have an avatar of their
/// own, however they are capitalised; all others share one.
pub open spec fn avatar_url(name: Seq<char>) -> Seq<char> {
    if lowercase(name) == "miku"@ {
        MIKU_AVATAR@
    } else if lowercase(name) == "teto"@ {
        TETO_AVATAR@
    } else if lowercase(name) == "neru"@ {
        NERU_AVATAR@
    } else {
        DEFAULT_AVATAR@
    }
}

/// Capitals do not matter to the avatar.
pub proof fn lemma_avatar_ignores_case(a: Seq<char>, b: Seq<char>)
    requires
        lowercase(a) == lowercase(b),
    ensures
        avatar_url(a) == avatar_url(b),
{
}

fn to_ascii_lower(c: char) -> (r: char)
    ensures
        r == ascii_lower(c),
{
    if 'A' <= c && c <= 'Z' {
        ((c as u8) + 32) as char
    } else {
        c
    }
}

/// Whether `name`, with its capitals in lower case, reads `wanted`.
fn reads_as(name: &str, wanted: &str) -> (r: bool)
    ensures
        r == (lowercase(name@) == wanted@),
{
    let n = name.unicode_len();
    if n != wanted.unicode_len() {
        return false;
    }
    let mut i: usize = 0;
    while i < n
        invariant
            i <= n,
            n == name@.len(),
            n == wanted@.len(),
            forall|k: int| 0 <= k < i ==> ascii_lower(name@[k]) == wanted@[k],
        decreases n - i,
    {
        if to_ascii_lower(name.get_char(i)) != wanted.get_char(i) {
            assert(lowercase(name@)[i as int] != wanted@[i as int]);
            return false;
        }
        i += 1;
    }
    assert(lowercase(name@) =~= wanted@);
    true
}

/// The avatar that goes with a name.
pub fn derive_avatar(name: &str) -> (url: String)
    ensures
        url@ == avatar_url(name@),
{
    if reads_as(name, "miku") {
        MIKU_AVATAR.to_owned()
    } else if reads_as(name, "teto") {
        TETO_AVATAR.to_owned()
    } else if reads_as(name, "neru") {
        NERU_AVATAR.to_owned()
    } else {
        DEFAULT_AVATAR.to_owned()
    }
}

/// What a user shows of themselves. A profile is not changed once made.
#[derive(Clone, Debug, PartialEq, Eq)]
pub struct UserProfile {
    name: String,
    avatar: String,
    bio: String,
}

/// The mathematical value of a [`UserProfile`].
pub struct ProfileView {
    pub name: Seq<char>,
    pub avatar: Seq<char>,
    pub bio: Seq<char>,
}

impl View for UserProfile {
    type V = ProfileView;

    closed spec fn view(&self) -> ProfileView {
        ProfileView { name: self.name@, avatar: self.avatar@, bio: self.bio@ }
    }
}

/// The profile of a user who signs in under `name` with `bio`.
pub open spec fn profile_for(name: Seq<char>, bio: Seq<char>) -> ProfileView {
    ProfileView { name, avatar: avatar_url(name), bio }
}

/// The JSON document of a profile.
pub open spec fn profile_document(p: ProfileView) -> JsonView {
    JsonView::Object(
        seq![
            ("name"@, JsonView::Text(p.name)),
            ("avatar"@, JsonView::Text(p.avatar)),
            ("bio"@, JsonView::Text(p.bio)),
        ],
    )
}

/// The profile that a JSON document stands for: an object whose `name`,
/// `avatar` and `bio` are strings. Other members are ignored.
pub open spec fn document_profile(doc: JsonView) -> Option<ProfileView> {
    match (doc.member("name"@), doc.member("avatar"@), doc.member("bio"@)) {
        (Some(JsonView::Text(name)), Some(JsonView::Text(avatar)), Some(JsonView::Text(bio))) => Some(
            ProfileView { name, avatar, bio },
        ),
        _ => None,
    }
}

/// The text that a profile is sent as.
pub open spec fn profile_text(p: ProfileView) -> Seq<char> {
    json_text(profile_document(p))
}

/// The profile that a text is received as.
pub open spec fn text_profile(text: Seq<char>) -> Option<ProfileView> {
    match json_parse(text) {
        Some(doc) => document_profile(doc),
        None => None,
    }
}

/// The document of a profile has distinct keys and is flat enough to be
/// read back from its text.
pub proof fn lemma_profile_document_plain(p: ProfileView)
    ensures
        profile_document(p).well_formed(),
        profile_document(p).plain(MAX_NESTING as nat),
{
    reveal_strlit("name");
    reveal_strlit("avatar");
    reveal_strlit("bio");
    assert("name"@.len() == 4 && "avatar"@.len() == 6 && "bio"@.len() == 3);
    let members = profile_document(p)->Object_0;
    assert(keys_distinct(members));
    assert forall|i: int| 0 <= i < members.len() implies (#[trigger] members[i]).1.well_formed()
        && members[i].1.plain((MAX_NESTING - 1) as nat) by {}
}

/// Reading the document of a profile gives the profile back.
pub proof fn lemma_profile_round_trip(p: ProfileView)
    ensures
        document_profile(profile_document(p)) == Some(p),
{
    reveal_strlit("name");
    reveal_strlit("avatar");
    reveal_strlit("bio");
    assert("name"@.len() == 4 && "avatar"@.len() == 6 && "bio"@.len() == 3);
    let doc = profile_document(p);
    let members = doc->Object_0;
    reveal_with_fuel(lookup, 4);
    assert(members.drop_first()[0] == members[1]);
    assert(members.drop_first().drop_first()[0] == members[2]);
    assert(doc.member("name"@) == Some(members[0].1));
    assert(doc.member("avatar"@) == Some(members[1].1));
    assert(doc.member("bio"@) == Some(members[2].1));
}

impl UserProfile {
    /// The profile of a user who signs in under `name` with `bio`.
    pub fn new(name: String, bio: String) -> (p: UserProfile)
        ensures
            p@ == profile_for(name@, bio@),
    {
        let avatar = derive_avatar(name.as_str());
        UserProfile { name, avatar, bio }
    }

    /// The JSON document of the profile.
    pub fn to_json(&self) -> (j: Json)
        ensures
            j@ == profile_document(self@),
    {
        let name = Json::Text(self.name.clone());
        let avatar = Json::Text(self.avatar.clone());
        let bio = Json::Text(self.bio.clone());
        assert(name@ == JsonView::Text(self.name@));
        assert(avatar@ == JsonView::Text(self.avatar@));
        assert(bio@ == JsonView::Text(self.bio@));
        let mut members: Vec<(String, Json)> = Vec::new();
        members.push(("name".to_owned(), name));
        members.push(("avatar".to_owned(), avatar));
        members.push(("bio".to_owned(), bio));
        let j = Json::Object(members);
        proof {
            let got = j@->Object_0;
            let want = profile_document(self@)->Object_0;
            assert(got.len() == 3 && want.len() == 3);
            assert(got[0] == want[0]);
            assert(got[1] == want[1]);
            assert(got[2] == want[2]);
            assert(got =~= want);
        }
        j
    }

    /// The profile that a JSON document stands for.
    pub fn from_json(doc: &Json) -> (r: Option<UserProfile>)
        ensures
            match r {
                Some(p) => document_profile(doc@) == Some(p@),
                None => document_profile(doc@) is None,
            },
    {
        let name = match doc.member("name") {
            Some(Json::Text(name)) => name.clone(),
            _ => return None,
        };
        let avatar = match doc.member("avatar") {
            Some(Json::Text(avatar)) => avatar.clone(),
            _ => return None,
        };
        let bio = match doc.member("bio") {
            Some(Json::Text(bio)) => bio.clone(),
            _ => return None,
        };
        Some(UserProfile { name, avatar, bio })
    }

    /// Writes the profile as JSON text, which reads back as the same
    /// profile.
    pub fn encode(&self) -> (text: String)
        ensures
            text@ == profile_text(self@),
            text_profile(text@) == Some(self@),
    {
        proof {
            lemma_profile_document_plain(self@);
            lemma_profile_round_trip(self@);
        }
        self.to_json().render()
    }

    /// Reads a profile from JSON text.
    pub fn decode(text: &str) -> (r: Option<UserProfile>)
        ensures
            match r {
                Some(p) => text_profile(text@) == Some(p@),
                None => text_profile(text@) is None,
            },
    {
        match Json::parse(text) {
            Some(doc) => UserProfile::from_json(&doc),
            None => None,
        }
    }

    /// The name that the user goes by.
    pub fn name(&self) -> (name: &String)
        ensures
            name@ == self@.name,
    {
        &self.name
    }

    /// Where the user's picture is found.
    pub fn avatar(&self) -> (avatar: &String)
        ensures
            avatar@ == self@.avatar,
    {
        &self.avatar
    }

    /// What the user says of themselves.
    pub fn bio(&self) -> (bio: &String)
        ensures
            bio@ == self@.bio,
    {
        &self.bio
    }
}

} // verus!
