use vstd::prelude::*;
use vstd::string::StringExecFns;
use rand::Rng;
use crate::text::{decimal, decimal_text, digit_char, digit_text};

verus! {

/// The number of tags: a tag is a number below it, written with four digits.
pub const TAG_SPACE: u16 = 10000;

/// A request to register a brawler.
#[derive(Debug)]
pub struct RegisterBrawlerModel {
    pub username: String,
    pub password: String,
    pub display_name: String,
    pub upload_avatar: Option<String>,
}

/// The brawler to create: the request with its tag drawn.
#[derive(Debug)]
pub struct RegisterBrawlerEntity {
    pub username: String,
    pub password: String,
    pub display_name: String,
    pub tag: String,
}

/// A brawler as the store keeps them. Times are seconds since the epoch.
#[derive(Debug)]
pub struct BrawlerEntity {
    pub id: i32,
    pub username: String,
    pub password: String,
    pub display_name: String,
    pub tag: String,
    pub avatar_url: Option<String>,
    pub created_at: i64,
    pub updated_at: i64,
}

/// A crew member as a mission shows them.
#[derive(Debug)]
pub struct BrawlerModel {
    pub display_name: String,
    pub avatar_url: String,
    pub mission_success_count: i64,
    pub mission_joined_count: i64,
}

/// A brawler as others see them.
#[derive(Debug)]
pub struct BrawlerSummaryModel {
    pub id: i32,
    pub display_name: String,
    pub tag: String,
    pub avatar_url: Option<String>,
}

/// `rand::rng` and `Rng::random_range` on `0..bound`: some number below
/// `bound`. Nothing else is known of it, and two calls may differ. The
/// range must not be empty.
#[verifier::external_body]
fn random_below(bound: u16) -> (drawn: u16)
    requires
        bound > 0,
    ensures
        drawn < bound,
{
    rand::rng().random_range(0..bound)
}

/// The number `tag` written in decimal with at least four digits, zeros in
/// front where it has fewer.
pub open spec fn tag_text(tag: int) -> Seq<char> {
    if tag < 1000 {
        seq![
            digit_char(0),
            digit_char((tag / 100) % 10),
            digit_char((tag / 10) % 10),
            digit_char(tag % 10),
        ]
    } else {
        decimal_text(tag)
    }
}

/// Writes a tag in decimal with at least four digits, zeros in front where
/// it has fewer.
pub fn format_tag(tag: u16) -> (text: String)
    ensures
        text@ == tag_text(tag as int),
{
    let number: u64 = tag as u64;
    if number < 1000 {
        let mut text = String::from_str(digit_text(0));
        text.append(digit_text((number / 100) % 10));
        text.append(digit_text((number / 10) % 10));
        text.append(digit_text(number % 10));
        assert(text@ =~= tag_text(tag as int));
        text
    } else {
        decimal(number)
    }
}

/// A tag below the number of tags is written with exactly four digits.
pub proof fn lemma_tag_has_four_digits(tag: int)
    requires
        0 <= tag < TAG_SPACE,
    ensures
        tag_text(tag).len() == 4,
        tag_text(tag) == seq![
            digit_char(tag / 1000),
            digit_char((tag / 100) % 10),
            digit_char((tag / 10) % 10),
            digit_char(tag % 10),
        ],
{
    if tag >= 1000 {
        reveal_with_fuel(decimal_text, 4);
        assert(tag / 10 >= 100 && tag / 100 >= 10 && tag / 1000 >= 1 && tag / 1000 < 10);
        assert(tag / 10 / 10 == tag / 100 && tag / 100 / 10 == tag / 1000);
        assert(tag_text(tag) =~= seq![
            digit_char(tag / 1000),
            digit_char((tag / 100) % 10),
            digit_char((tag / 10) % 10),
            digit_char(tag % 10),
        ]);
    }
}

impl RegisterBrawlerModel {
    /// The brawler that the request creates under the tag `tag`.
    pub fn to_entity_with_tag(&self, tag: u16) -> (entity: RegisterBrawlerEntity)
        ensures
            entity.username == self.username,
            entity.password == self.password,
            entity.display_name == self.display_name,
            entity.tag@ == tag_text(tag as int),
    {
        RegisterBrawlerEntity {
            username: self.username.clone(),
            password: self.password.clone(),
            display_name: self.display_name.clone(),
            tag: format_tag(tag),
        }
    }

    /// The brawler that the request creates, under a tag drawn at random.
    /// Whatever is drawn, the tag has four decimal digits.
    pub fn to_entity(&self) -> (entity: RegisterBrawlerEntity)
        ensures
            entity.username == self.username,
            entity.password == self.password,
            entity.display_name == self.display_name,
            exists|tag: int| 0 <= tag < TAG_SPACE && entity.tag@ == #[trigger] tag_text(tag),
            entity.tag@.len() == 4,
    {
        let tag = random_below(TAG_SPACE);
        proof {
            lemma_tag_has_four_digits(tag as int);
        }
        self.to_entity_with_tag(tag)
    }
}

impl From<BrawlerEntity> for BrawlerSummaryModel {
    /// What others see of `entity`.
    fn from(entity: BrawlerEntity) -> (summary: BrawlerSummaryModel) {
        BrawlerSummaryModel {
            id: entity.id,
            display_name: entity.display_name,
            tag: entity.tag,
            avatar_url: entity.avatar_url,
        }
    }
}

impl vstd::std_specs::convert::FromSpecImpl<BrawlerEntity> for BrawlerSummaryModel {
    open spec fn obeys_from_spec() -> bool {
        true
    }

    open spec fn from_spec(entity: BrawlerEntity) -> BrawlerSummaryModel {
        BrawlerSummaryModel {
            id: entity.id,
            display_name: entity.display_name,
            tag: entity.tag,
            avatar_url: entity.avatar_url,
        }
    }
}

} // verus!
