//! Users: buyers, sellers and support staff. Identity is the user id; a
//! display name is informational. A user is written as its variant name and
//! fields joined by `|` (`BuyerOrSeller|id|name`, `Support|id`).

use vstd::prelude::*;
use vstd::string::*;

use crate::text::lemma_sep_after_field;
use crate::text::lemma_sep_pos_empty;
use crate::text::lemma_sep_pos_in_range;
use crate::text::pipe_free;
use crate::text::sep_pos_seq;
use crate::text::sep_positions;
use crate::text::text_eq;

verus! {

/// A user's identity.
pub type UserId = String;

/// Mathematical model of a [`User`].
#[verifier::ext_equal]
pub enum UserV {
    BuyerOrSeller { user_id: Seq<char>, name: Seq<char> },
    Support { user_id: Seq<char> },
}

impl UserV {
    /// The identity, whichever role the user has.
    pub open spec fn user_id(self) -> Seq<char> {
        match self {
            UserV::BuyerOrSeller { user_id, .. } => user_id,
            UserV::Support { user_id } => user_id,
        }
    }
}

/// A participant: either a buyer-or-seller with a display name, or a
/// support user.
#[derive(Debug, PartialEq, Eq)]
pub enum User {
    BuyerOrSeller { user_id: UserId, name: String },
    Support { user_id: UserId },
}

impl View for User {
    type V = UserV;

    open spec fn view(&self) -> UserV {
        match self {
            User::BuyerOrSeller { user_id, name } => UserV::BuyerOrSeller {
                user_id: user_id@,
                name: name@,
            },
            User::Support { user_id } => UserV::Support { user_id: user_id@ },
        }
    }
}

impl Clone for User {
    fn clone(&self) -> (r: Self)
        ensures
            r@ == self@,
    {
        match self {
            User::BuyerOrSeller { user_id, name } => User::BuyerOrSeller {
                user_id: user_id.clone(),
                name: name.clone(),
            },
            User::Support { user_id } => User::Support { user_id: user_id.clone() },
        }
    }
}

/// The display form of a user.
pub open spec fn user_text(u: UserV) -> Seq<char> {
    match u {
        UserV::BuyerOrSeller { user_id, name } => "BuyerOrSeller"@ + seq!['|'] + user_id + seq![
            '|',
        ] + name,
        UserV::Support { user_id } => "Support"@ + seq!['|'] + user_id,
    }
}

/// The user a text denotes: the `|`-separated fields must be exactly a
/// known variant name followed by its fields.
pub open spec fn user_from_text(s: Seq<char>) -> Option<UserV> {
    let ps = sep_pos_seq(s, '|');
    if ps.len() == 2 && s.take(ps[0]) == "BuyerOrSeller"@ {
        Some(
            UserV::BuyerOrSeller {
                user_id: s.subrange(ps[0] + 1, ps[1]),
                name: s.skip(ps[1] + 1),
            },
        )
    } else if ps.len() == 1 && s.take(ps[0]) == "Support"@ {
        Some(UserV::Support { user_id: s.skip(ps[0] + 1) })
    } else {
        None
    }
}

/// Law (display/parse round trip): a user whose id and display name are
/// free of the separator `|` parses back from its display form exactly.
pub proof fn lemma_user_text_roundtrip(u: UserV)
    requires
        pipe_free(u.user_id()),
        u matches UserV::BuyerOrSeller { name, .. } ==> pipe_free(name),
    ensures
        user_from_text(user_text(u)) == Some(u),
{
    reveal_strlit("BuyerOrSeller");
    reveal_strlit("Support");
    match u {
        UserV::BuyerOrSeller { user_id: id, name } => {
            let lit = "BuyerOrSeller"@;
            assert(pipe_free(lit)) by {
                assert forall|i: int| 0 <= i < lit.len() implies lit[i] != '|' by {
                    assert(lit.len() == 13);
                }
            }
            let s = user_text(u);
            let tail = id + seq!['|'] + name;
            assert(s =~= lit + seq!['|'] + tail);
            lemma_sep_pos_empty(name, '|');
            lemma_sep_after_field(id, name);
            lemma_sep_after_field(lit, tail);
            let ps = sep_pos_seq(s, '|');
            assert(sep_pos_seq(tail, '|') =~= seq![id.len() as int]);
            assert(ps =~= seq![13int, 14 + id.len() as int]);
            assert(s.take(13) =~= lit);
            assert(s.subrange(14, 14 + id.len() as int) =~= id);
            assert(s.skip(15 + id.len() as int) =~= name);
            let parsed = user_from_text(s);
            assert(parsed matches Some(p) && p =~= u);
        },
        UserV::Support { user_id: id } => {
            let lit = "Support"@;
            assert(pipe_free(lit)) by {
                assert forall|i: int| 0 <= i < lit.len() implies lit[i] != '|' by {
                    assert(lit.len() == 7);
                }
            }
            let s = user_text(u);
            lemma_sep_pos_empty(id, '|');
            lemma_sep_after_field(lit, id);
            let ps = sep_pos_seq(s, '|');
            assert(ps =~= seq![7int]);
            assert(s.take(7) =~= lit);
            assert(s.skip(8) =~= id);
            let parsed = user_from_text(s);
            assert(parsed matches Some(p) && p =~= u);
        },
    }
}

impl User {
    /// The identity, whichever role the user has.
    pub fn user_id(&self) -> (r: &UserId)
        ensures
            r@ == self@.user_id(),
    {
        match self {
            User::BuyerOrSeller { user_id, .. } => user_id,
            User::Support { user_id } => user_id,
        }
    }

    /// Writes the user in its display form.
    pub fn to_text(&self) -> (r: String)
        ensures
            r@ == user_text(self@),
    {
        match self {
            User::BuyerOrSeller { user_id, name } => {
                let mut out = "BuyerOrSeller".to_owned();
                out.append("|");
                out.append(user_id.as_str());
                out.append("|");
                out.append(name.as_str());
                proof {
                    reveal_strlit("|");
                    assert(out@ =~= user_text(self@));
                }
                out
            },
            User::Support { user_id } => {
                let mut out = "Support".to_owned();
                out.append("|");
                out.append(user_id.as_str());
                proof {
                    reveal_strlit("|");
                    assert(out@ =~= user_text(self@));
                }
                out
            },
        }
    }

    /// Reads a user back from its display form.
    pub fn from_text(s: &str) -> (r: Option<User>)
        ensures
            user_from_text(s@) matches Some(uv) ==> (r matches Some(u) && u@ == uv),
            user_from_text(s@) is None ==> r is None,
    {
        let n = s.unicode_len();
        let ps = sep_positions(s, '|');
        proof {
            lemma_sep_pos_in_range(s@, '|');
        }
        if ps.len() == 2 {
            let p0 = ps[0];
            let p1 = ps[1];
            let head = s.substring_char(0, p0);
            proof {
                assert(head@ =~= s@.take(p0 as int));
            }
            if text_eq(head, "BuyerOrSeller") {
                let user_id = s.substring_char(p0 + 1, p1).to_owned();
                let name = s.substring_char(p1 + 1, n).to_owned();
                proof {
                    assert(name@ =~= s@.skip(p1 + 1));
                }
                Some(User::BuyerOrSeller { user_id, name })
            } else {
                None
            }
        } else if ps.len() == 1 {
            let p0 = ps[0];
            let head = s.substring_char(0, p0);
            proof {
                assert(head@ =~= s@.take(p0 as int));
            }
            if text_eq(head, "Support") {
                let user_id = s.substring_char(p0 + 1, n).to_owned();
                proof {
                    assert(user_id@ =~= s@.skip(p0 + 1));
                }
                Some(User::Support { user_id })
            } else {
                None
            }
        } else {
            None
        }
    }
}

} // verus!
