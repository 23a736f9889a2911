//! One entry of the engine's news feed. Fetching and parsing the feed are
//! the surrounding application's business; this is the record it hands on.

use vstd::prelude::*;

verus! {

/// One news entry: its headline, byline, excerpt, illustration and link.
pub struct NewsEntry {
    pub title: String,
    pub info: String,
    pub body: String,
    pub image_url: String,
    pub href: String,
}

/// Mathematical model of a [`NewsEntry`].
pub struct NewsEntryView {
    pub title: Seq<char>,
    pub info: Seq<char>,
    pub body: Seq<char>,
    pub image_url: Seq<char>,
    pub href: Seq<char>,
}

impl View for NewsEntry {
    type V = NewsEntryView;

    open spec fn view(&self) -> NewsEntryView {
        NewsEntryView {
            title: self.title@,
            info: self.info@,
            body: self.body@,
            image_url: self.image_url@,
            href: self.href@,
        }
    }
}

impl DeepView for NewsEntry {
    type V = NewsEntryView;

    open spec fn deep_view(&self) -> NewsEntryView {
        self.view()
    }
}

} // verus!
