use vstd::prelude::*;
use vstd::string::{StrSliceExecFns, StringExecFns};
use crate::brawler_model::BrawlerEntity;

verus! {

/// Why a request about friends was refused.
#[derive(Clone, Copy, Debug, PartialEq, Eq, Structural)]
pub enum FriendshipError {
    /// The search text is not of the form `Name#1234`.
    InvalidSearchFormat,
    /// No brawler has that name and tag.
    BrawlerNotFound,
    /// A brawler cannot befriend themselves.
    SelfFriendship,
    /// The two are friends already.
    AlreadyFriends,
}

/// A search for a brawler by display name and tag.
#[derive(Debug)]
pub struct FriendQuery {
    pub name: String,
    pub tag: String,
}

/// One direction of a friendship, as it is stored.
#[derive(Debug)]
pub struct NewFriendshipEntity {
    pub brawler_id: i32,
    pub friend_id: i32,
    pub status: String,
}

/// The friendship use case: what is searched for, and which rows a new
/// friendship writes.
pub struct FriendshipUseCase {}

/// White space, as Unicode defines it.
pub open spec fn is_space(c: char) -> bool {
    let code = c as u32;
    ||| 0x09 <= code <= 0x0D
    ||| code == 0x20
    ||| code == 0x85
    ||| code == 0xA0
    ||| code == 0x1680
    ||| 0x2000 <= code <= 0x200A
    ||| code == 0x2028
    ||| code == 0x2029
    ||| code == 0x202F
    ||| code == 0x205F
    ||| code == 0x3000
}

/// `text` without the white space in front.
pub open spec fn trim_start(text: Seq<char>) -> Seq<char>
    decreases text.len(),
{
    if text.len() > 0 && is_space(text.first()) {
        trim_start(text.drop_first())
    } else {
        text
    }
}

/// `text` without the white space at the end.
pub open spec fn trim_end(text: Seq<char>) -> Seq<char>
    decreases text.len(),
{
    if text.len() > 0 && is_space(text.last()) {
        trim_end(text.drop_last())
    } else {
        text
    }
}

/// `text` without the white space around it.
pub open spec fn trimmed(text: Seq<char>) -> Seq<char> {
    trim_end(trim_start(text))
}

/// The number of `#` in `text`.
pub open spec fn hash_count(text: Seq<char>) -> nat
    decreases text.len(),
{
    if text.len() == 0 {
        0
    } else if text.last() == '#' {
        hash_count(text.drop_last()) + 1
    } else {
        hash_count(text.drop_last())
    }
}

/// The name and the tag that `query` names: the texts on the two sides of
/// its one `#`, without the white space around them. `None` where `query`
/// holds no `#` or more than one.
pub open spec fn parsed_query(query: Seq<char>) -> Option<(Seq<char>, Seq<char>)> {
    if hash_count(query) == 1 {
        let at = query.index_of('#');
        Some((trimmed(query.take(at)), trimmed(query.skip(at + 1))))
    } else {
        None
    }
}

/// Whether `c` is white space.
pub fn char_is_space(c: char) -> (space: bool)
    ensures
        space == is_space(c),
{
    let code = c as u32;
    (0x09 <= code && code <= 0x0D) || code == 0x20 || code == 0x85 || code == 0xA0 || code
        == 0x1680 || (0x2000 <= code && code <= 0x200A) || code == 0x2028 || code == 0x2029
        || code == 0x202F || code == 0x205F || code == 0x3000
}

/// Cuts the white space around `text` away.
pub fn trim(text: &str) -> (cut: &str)
    ensures
        cut@ == trimmed(text@),
{
    let len = text.unicode_len();
    let mut from: usize = 0;
    proof {
        assert(text@.skip(0) =~= text@);
    }
    while from < len && char_is_space(text.get_char(from))
        invariant
            from <= len,
            len == text@.len(),
            trim_start(text@) == trim_start(text@.skip(from as int)),
        decreases len - from,
    {
        proof {
            assert(text@.skip(from as int).first() == text@[from as int]);
            assert(text@.skip(from as int).drop_first() =~= text@.skip(from as int + 1));
        }
        from = from + 1;
    }
    proof {
        if from < len {
            assert(text@.skip(from as int).first() == text@[from as int]);
        }
        assert(trim_start(text@) == text@.skip(from as int));
    }
    let ghost rest = text@.skip(from as int);
    let mut to: usize = len;
    proof {
        assert(text@.subrange(from as int, len as int) =~= rest);
    }
    while to > from && char_is_space(text.get_char(to - 1))
        invariant
            from <= to <= len,
            len == text@.len(),
            rest == text@.skip(from as int),
            trim_end(rest) == trim_end(text@.subrange(from as int, to as int)),
        decreases to - from,
    {
        proof {
            let part = text@.subrange(from as int, to as int);
            assert(part.last() == text@[to as int - 1]);
            assert(part.drop_last() =~= text@.subrange(from as int, to as int - 1));
        }
        to = to - 1;
    }
    proof {
        let part = text@.subrange(from as int, to as int);
        if to > from {
            assert(part.last() == text@[to as int - 1]);
        }
        assert(trim_end(rest) == part);
    }
    text.substring_char(from, to)
}

/// A `#` at the end counts toward the `#` of a text; any other character
/// there does not.
proof fn lemma_hash_count_take(text: Seq<char>, n: int)
    requires
        0 <= n < text.len(),
    ensures
        hash_count(text.take(n + 1)) == hash_count(text.take(n)) + if text[n] == '#' {
            1nat
        } else {
            0nat
        },
{
    assert(text.take(n + 1).drop_last() =~= text.take(n));
    assert(text.take(n + 1).last() == text[n]);
}

/// A text without `#` in it counts none.
proof fn lemma_no_hash(text: Seq<char>)
    requires
        hash_count(text) == 0,
    ensures
        !text.contains('#'),
    decreases text.len(),
{
    if text.len() > 0 {
        lemma_no_hash(text.drop_last());
        if text.contains('#') {
            let k = choose|k: int| 0 <= k < text.len() && text[k] == '#';
            assert(k < text.len() - 1);
            assert(text.drop_last()[k] == '#');
            assert(text.drop_last().contains('#'));
        }
    }
}

impl FriendshipUseCase {
    pub fn new() -> (use_case: FriendshipUseCase) {
        FriendshipUseCase {}
    }

    /// Reads a search text of the form `Name#1234`: exactly one `#`, with
    /// the name before it and the tag after it; white space around either is
    /// dropped.
    pub fn search_friend(&self, query: &str) -> (parsed: Result<FriendQuery, FriendshipError>)
        ensures
            match parsed_query(query@) {
                Some((name, tag)) => parsed matches Ok(found) && found.name@ == name && found.tag@
                    == tag,
                None => parsed matches Err(e) && e == FriendshipError::InvalidSearchFormat,
            },
    {
        let len = query.unicode_len();
        let mut count: usize = 0;
        let mut first: usize = 0;
        let mut i: usize = 0;
        while i < len
            invariant
                i <= len,
                len == query@.len(),
                count == hash_count(query@.take(i as int)),
                count <= i,
                count > 0 ==> first < i && query@[first as int] == '#',
                count == 1 ==> forall|j: int| 0 <= j < i && j != first ==> query@[j] != '#',
            decreases len - i,
        {
            proof {
                lemma_hash_count_take(query@, i as int);
            }
            if query.get_char(i) == '#' {
                if count == 0 {
                    first = i;
                    proof {
                        lemma_no_hash(query@.take(i as int));
                        assert forall|j: int| 0 <= j < i implies query@[j] != '#' by {
                            if query@[j] == '#' {
                                assert(query@.take(i as int)[j] == '#');
                                assert(query@.take(i as int).contains('#'));
                            }
                        }
                    }
                }
                count = count + 1;
            }
            i = i + 1;
        }
        proof {
            assert(query@.take(len as int) =~= query@);
        }
        if count != 1 {
            return Err(FriendshipError::InvalidSearchFormat);
        }
        proof {
            let at = query@.index_of('#');
            assert(query@.contains('#'));
            assert(0 <= at < query@.len() && query@[at] == '#');
            assert(at == first);
            assert(query@.take(first as int) =~= query@.subrange(0, first as int));
            assert(query@.skip(first as int + 1) =~= query@.subrange(
                first as int + 1,
                len as int,
            ));
        }
        let name = trim(query.substring_char(0, first));
        let tag = trim(query.substring_char(first + 1, len));
        Ok(FriendQuery { name: String::from_str(name), tag: String::from_str(tag) })
    }

    /// Turns the answer of the search into its result: a brawler, or
    /// `BrawlerNotFound`.
    pub fn search_result(&self, found: Option<BrawlerEntity>) -> (result: Result<
        BrawlerEntity,
        FriendshipError,
    >)
        ensures
            match found {
                Some(brawler) => result matches Ok(same) && same == brawler,
                None => result matches Err(e) && e == FriendshipError::BrawlerNotFound,
            },
    {
        match found {
            Some(brawler) => Ok(brawler),
            None => Err(FriendshipError::BrawlerNotFound),
        }
    }

    /// Refuses a friendship of a brawler with themselves. This is decided
    /// before the store is asked anything.
    pub fn check_not_self(&self, brawler_id: i32, friend_id: i32) -> (verdict: Result<
        (),
        FriendshipError,
    >)
        ensures
            verdict == if brawler_id == friend_id {
                Err::<(), FriendshipError>(FriendshipError::SelfFriendship)
            } else {
                Ok::<(), FriendshipError>(())
            },
    {
        if brawler_id == friend_id {
            Err(FriendshipError::SelfFriendship)
        } else {
            Ok(())
        }
    }

    /// The two rows that make `brawler_id` and `friend_id` friends, one for
    /// each direction, both accepted at once. Refused where the two are the
    /// same brawler, and where the store already holds the friendship.
    pub fn add_friend(&self, brawler_id: i32, friend_id: i32, already_friends: bool) -> (rows:
        Result<(NewFriendshipEntity, NewFriendshipEntity), FriendshipError>)
        ensures
            brawler_id == friend_id ==> (rows matches Err(e) && e
                == FriendshipError::SelfFriendship),
            brawler_id != friend_id && already_friends ==> (rows matches Err(e) && e
                == FriendshipError::AlreadyFriends),
            brawler_id != friend_id && !already_friends ==> (rows matches Ok((there, back)) && {
                &&& there.brawler_id == brawler_id
                &&& there.friend_id == friend_id
                &&& there.status@ == "accepted"@
                &&& back.brawler_id == friend_id
                &&& back.friend_id == brawler_id
                &&& back.status@ == "accepted"@
            }),
    {
        if brawler_id == friend_id {
            return Err(FriendshipError::SelfFriendship);
        }
        if already_friends {
            return Err(FriendshipError::AlreadyFriends);
        }
        Ok(
            (
                NewFriendshipEntity { brawler_id, friend_id, status: String::from_str("accepted") },
                NewFriendshipEntity {
                    brawler_id: friend_id,
                    friend_id: brawler_id,
                    status: String::from_str("accepted"),
                },
            ),
        )
    }
}

} // verus!
