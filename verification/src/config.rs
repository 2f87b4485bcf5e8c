//! Story configuration.
use vstd::prelude::*;

verus! {

/// Game configuration extracted from a story's frontmatter.
///
/// LLM configuration (API key, provider, model) is not here; it is supplied
/// by the user at run time.
#[derive(Debug)]
pub struct StoryConfig {
    pub title: String,
    pub author: String,
    /// Passage ID of the initial passage.
    pub start: String,
    /// Semantic version string.
    pub version: String,
    /// Maximum number of save slots.
    pub save_slots: u8,
}

impl StoryConfig {
    /// A configuration with the given fields.
    pub fn new(title: String, author: String, start: String, version: String, save_slots: u8) -> (r:
        StoryConfig)
        ensures
            r.title@ == title@,
            r.author@ == author@,
            r.start@ == start@,
            r.version@ == version@,
            r.save_slots == save_slots,
    {
        StoryConfig { title, author, start, version, save_slots }
    }

    /// A configuration with the same fields.
    pub fn copy(&self) -> (r: StoryConfig)
        ensures
            r.title@ == self.title@,
            r.author@ == self.author@,
            r.start@ == self.start@,
            r.version@ == self.version@,
            r.save_slots == self.save_slots,
    {
        StoryConfig {
            title: self.title.clone(),
            author: self.author.clone(),
            start: self.start.clone(),
            version: self.version.clone(),
            save_slots: self.save_slots,
        }
    }
}

impl Default for StoryConfig {
    fn default() -> (r: StoryConfig)
        ensures
            r.title@ == Seq::<char>::empty(),
            r.author@ == Seq::<char>::empty(),
            r.start@ == Seq::<char>::empty(),
            r.version@ == Seq::<char>::empty(),
            r.save_slots == 0,
    {
        StoryConfig {
            title: String::new(),
            author: String::new(),
            start: String::new(),
            version: String::new(),
            save_slots: 0,
        }
    }
}

/// The version a story has when its frontmatter names none.
pub fn default_version() -> (r: String)
    ensures
        r@ == "0.1.0"@,
{
    String::from_str("0.1.0")
}

/// The number of save slots a story has when its frontmatter names none.
pub fn default_save_slots() -> (r: u8)
    ensures
        r == 10,
{
    10
}

} // verus!
