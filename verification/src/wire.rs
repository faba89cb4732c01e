use crate::message::{Media, MediaView};
use crate::text::{same_text, texts_view};
use vstd::prelude::*;
use vstd::string::*;

verus! {

/// A key of the object that stands for one [`Media`] on the wire.
#[derive(Clone, Copy, Debug, PartialEq, Eq, Structural)]
pub enum MediaField {
    Type,
    Text,
    ImageUrl,
    Video,
    VideoUrl,
}

impl MediaField {
    /// The key as it is written on the wire.
    pub open spec fn name_view(self) -> Seq<char> {
        match self {
            MediaField::Type => "type"@,
            MediaField::Text => "text"@,
            MediaField::ImageUrl => "image_url"@,
            MediaField::Video => "video"@,
            MediaField::VideoUrl => "video_url"@,
        }
    }

    pub fn name(&self) -> (name: &'static str)
        ensures
            name@ == self.name_view(),
    {
        match self {
            MediaField::Type => "type",
            MediaField::Text => "text",
            MediaField::ImageUrl => "image_url",
            MediaField::Video => "video",
            MediaField::VideoUrl => "video_url",
        }
    }

    /// The field that a key names, if it names one.
    pub fn from_name(name: &str) -> (field: Option<MediaField>)
        ensures
            match field {
                Some(f) => f.name_view() == name@,
                None => forall|f: MediaField| f.name_view() != name@,
            },
    {
        if same_text(name, "type") {
            Some(MediaField::Type)
        } else if same_text(name, "text") {
            Some(MediaField::Text)
        } else if same_text(name, "image_url") {
            Some(MediaField::ImageUrl)
        } else if same_text(name, "video") {
            Some(MediaField::Video)
        } else if same_text(name, "video_url") {
            Some(MediaField::VideoUrl)
        } else {
            None
        }
    }
}

/// No two fields share a key.
pub proof fn lemma_field_names_distinct(f: MediaField, g: MediaField)
    requires
        f.name_view() == g.name_view(),
    ensures
        f == g,
{
    reveal_strlit("type");
    reveal_strlit("text");
    reveal_strlit("image_url");
    reveal_strlit("video");
    reveal_strlit("video_url");
    if f != g {
        let a = f.name_view();
        let b = g.name_view();
        assert(a.len() == b.len());
        assert(a[0] == b[0]);
        assert(a[1] == b[1]);
    }
}

/// One key of a media object with the value read for it.
#[derive(Clone, Debug)]
pub enum MediaEntry {
    Type(String),
    Text(String),
    ImageUrl(String),
    Video(Vec<String>),
    VideoUrl(String),
}

/// The mathematical value of a [`MediaEntry`].
pub enum MediaEntryView {
    Type(Seq<char>),
    Text(Seq<char>),
    ImageUrl(Seq<char>),
    Video(Seq<Seq<char>>),
    VideoUrl(Seq<char>),
}

impl MediaEntryView {
    /// The key of the entry.
    pub open spec fn field(self) -> MediaField {
        match self {
            MediaEntryView::Type(_) => MediaField::Type,
            MediaEntryView::Text(_) => MediaField::Text,
            MediaEntryView::ImageUrl(_) => MediaField::ImageUrl,
            MediaEntryView::Video(_) => MediaField::Video,
            MediaEntryView::VideoUrl(_) => MediaField::VideoUrl,
        }
    }
}

impl View for MediaEntry {
    type V = MediaEntryView;

    open spec fn view(&self) -> MediaEntryView {
        match self {
            MediaEntry::Type(name) => MediaEntryView::Type(name@),
            MediaEntry::Text(text) => MediaEntryView::Text(text@),
            MediaEntry::ImageUrl(url) => MediaEntryView::ImageUrl(url@),
            MediaEntry::Video(urls) => MediaEntryView::Video(texts_view(urls@)),
            MediaEntry::VideoUrl(url) => MediaEntryView::VideoUrl(url@),
        }
    }
}

impl MediaEntry {
    pub fn field(&self) -> (field: MediaField)
        ensures
            field == self@.field(),
    {
        match self {
            MediaEntry::Type(_) => MediaField::Type,
            MediaEntry::Text(_) => MediaField::Text,
            MediaEntry::ImageUrl(_) => MediaField::ImageUrl,
            MediaEntry::Video(_) => MediaField::Video,
            MediaEntry::VideoUrl(_) => MediaField::VideoUrl,
        }
    }
}

/// Why the entries of an object do not make a [`Media`].
#[derive(Clone, Debug)]
pub enum MediaError {
    /// A key came when its slot was already filled.
    DuplicateField(MediaField),
    /// The object ended without the key that its type asks for.
    MissingField(MediaField),
    /// The type is none of the four known ones.
    UnknownVariant(String),
}

/// The mathematical value of a [`MediaError`].
pub enum MediaErrorView {
    DuplicateField(MediaField),
    MissingField(MediaField),
    UnknownVariant(Seq<char>),
}

impl View for MediaError {
    type V = MediaErrorView;

    open spec fn view(&self) -> MediaErrorView {
        match self {
            MediaError::DuplicateField(field) => MediaErrorView::DuplicateField(*field),
            MediaError::MissingField(field) => MediaErrorView::MissingField(*field),
            MediaError::UnknownVariant(name) => MediaErrorView::UnknownVariant(name@),
        }
    }
}

/// What has been read of one media object: a slot for the type, one for the
/// text, one for the list of video frames, and one that the two kinds of URL
/// share.
pub struct MediaFieldsView {
    pub ty: Option<Seq<char>>,
    pub text: Option<Seq<char>>,
    pub url: Option<Seq<char>>,
    pub urls: Option<Seq<Seq<char>>>,
}

impl MediaFieldsView {
    /// Nothing read yet.
    pub open spec fn empty() -> Self {
        MediaFieldsView { ty: None, text: None, url: None, urls: None }
    }

    /// Whether the slot that `field` writes is filled.
    pub open spec fn holds(self, field: MediaField) -> bool {
        match field {
            MediaField::Type => self.ty is Some,
            MediaField::Text => self.text is Some,
            MediaField::ImageUrl => self.url is Some,
            MediaField::Video => self.urls is Some,
            MediaField::VideoUrl => self.url is Some,
        }
    }

    /// The state after one more entry: its value in its slot, or the error
    /// where that slot is filled already.
    pub open spec fn put(self, entry: MediaEntryView) -> Result<Self, MediaErrorView> {
        if self.holds(entry.field()) {
            Err(MediaErrorView::DuplicateField(entry.field()))
        } else {
            Ok(
                match entry {
                    MediaEntryView::Type(name) => MediaFieldsView { ty: Some(name), ..self },
                    MediaEntryView::Text(text) => MediaFieldsView { text: Some(text), ..self },
                    MediaEntryView::ImageUrl(url) => MediaFieldsView { url: Some(url), ..self },
                    MediaEntryView::Video(urls) => MediaFieldsView { urls: Some(urls), ..self },
                    MediaEntryView::VideoUrl(url) => MediaFieldsView { url: Some(url), ..self },
                },
            )
        }
    }

    /// The media that the slots make once the object has ended: the type
    /// chooses the slot, and an empty slot is an error.
    pub open spec fn finish(self) -> Result<MediaView, MediaErrorView> {
        match self.ty {
            None => Err(MediaErrorView::MissingField(MediaField::Type)),
            Some(name) => if name == MediaField::Text.name_view() {
                match self.text {
                    Some(text) => Ok(MediaView::Text(text)),
                    None => Err(MediaErrorView::MissingField(MediaField::Text)),
                }
            } else if name == MediaField::ImageUrl.name_view() {
                match self.url {
                    Some(url) => Ok(MediaView::ImageUrl(url)),
                    None => Err(MediaErrorView::MissingField(MediaField::ImageUrl)),
                }
            } else if name == MediaField::Video.name_view() {
                match self.urls {
                    Some(urls) => Ok(MediaView::Video(urls)),
                    None => Err(MediaErrorView::MissingField(MediaField::Video)),
                }
            } else if name == MediaField::VideoUrl.name_view() {
                match self.url {
                    Some(url) => Ok(MediaView::VideoUrl(url)),
                    None => Err(MediaErrorView::MissingField(MediaField::VideoUrl)),
                }
            } else {
                Err(MediaErrorView::UnknownVariant(name))
            },
        }
    }
}

/// The state after the entries of an object, read in order from nothing: the
/// first entry that meets a filled slot ends the reading with its error.
pub open spec fn read_entries(entries: Seq<MediaEntryView>) -> Result<
    MediaFieldsView,
    MediaErrorView,
>
    decreases entries.len(),
{
    if entries.len() == 0 {
        Ok(MediaFieldsView::empty())
    } else {
        match read_entries(entries.drop_last()) {
            Ok(state) => state.put(entries.last()),
            Err(error) => Err(error),
        }
    }
}

/// The media that the entries of one object stand for, or why they stand for
/// none.
pub open spec fn decoded_media(entries: Seq<MediaEntryView>) -> Result<MediaView, MediaErrorView> {
    match read_entries(entries) {
        Ok(state) => state.finish(),
        Err(error) => Err(error),
    }
}

/// The entries that stand for a media on the wire: its type, then its value
/// under the key of that type.
pub open spec fn wire_entries(media: MediaView) -> Seq<MediaEntryView> {
    match media {
        MediaView::Text(text) => seq![
            MediaEntryView::Type(MediaField::Text.name_view()),
            MediaEntryView::Text(text),
        ],
        MediaView::ImageUrl(url) => seq![
            MediaEntryView::Type(MediaField::ImageUrl.name_view()),
            MediaEntryView::ImageUrl(url),
        ],
        MediaView::Video(urls) => seq![
            MediaEntryView::Type(MediaField::Video.name_view()),
            MediaEntryView::Video(urls),
        ],
        MediaView::VideoUrl(url) => seq![
            MediaEntryView::Type(MediaField::VideoUrl.name_view()),
            MediaEntryView::VideoUrl(url),
        ],
    }
}

/// The value of each entry of a list.
pub open spec fn entries_view(entries: Seq<MediaEntry>) -> Seq<MediaEntryView> {
    entries.map_values(|entry: MediaEntry| entry@)
}

/// The value of a decoding result.
pub open spec fn media_result_view(result: Result<Media, MediaError>) -> Result<
    MediaView,
    MediaErrorView,
> {
    match result {
        Ok(media) => Ok(media@),
        Err(error) => Err(error@),
    }
}

/// The slots of one media object while its entries are read.
pub struct MediaFields {
    ty: Option<String>,
    text: Option<String>,
    url: Option<String>,
    urls: Option<Vec<String>>,
}

impl View for MediaFields {
    type V = MediaFieldsView;

    closed spec fn view(&self) -> MediaFieldsView {
        MediaFieldsView {
            ty: match self.ty {
                Some(name) => Some(name@),
                None => None,
            },
            text: match self.text {
                Some(text) => Some(text@),
                None => None,
            },
            url: match self.url {
                Some(url) => Some(url@),
                None => None,
            },
            urls: match self.urls {
                Some(urls) => Some(texts_view(urls@)),
                None => None,
            },
        }
    }
}

impl MediaFields {
    pub fn new() -> (fields: Self)
        ensures
            fields@ == MediaFieldsView::empty(),
    {
        MediaFields { ty: None, text: None, url: None, urls: None }
    }

    /// Whether the slot that `field` writes is filled, so that an entry with
    /// this key would be refused.
    pub fn holds(&self, field: MediaField) -> (filled: bool)
        ensures
            filled == self@.holds(field),
    {
        match field {
            MediaField::Type => self.ty.is_some(),
            MediaField::Text => self.text.is_some(),
            MediaField::ImageUrl => self.url.is_some(),
            MediaField::Video => self.urls.is_some(),
            MediaField::VideoUrl => self.url.is_some(),
        }
    }

    /// Takes one more entry. Where its slot is filled the entry is refused and
    /// the slots stay as they are.
    pub fn put(&mut self, entry: MediaEntry) -> (result: Result<(), MediaError>)
        ensures
            match old(self)@.put(entry@) {
                Ok(next) => result is Ok && final(self)@ == next,
                Err(error) => result matches Err(e) && e@ == error && final(self)@ == old(self)@,
            },
    {
        if self.holds(entry.field()) {
            return Err(MediaError::DuplicateField(entry.field()));
        }
        match entry {
            MediaEntry::Type(name) => {
                self.ty = Some(name);
            },
            MediaEntry::Text(text) => {
                self.text = Some(text);
            },
            MediaEntry::ImageUrl(url) => {
                self.url = Some(url);
            },
            MediaEntry::Video(urls) => {
                self.urls = Some(urls);
            },
            MediaEntry::VideoUrl(url) => {
                self.url = Some(url);
            },
        }
        Ok(())
    }

    /// The media that the slots make, once the object has ended.
    pub fn finish(self) -> (result: Result<Media, MediaError>)
        ensures
            media_result_view(result) == self@.finish(),
    {
        let MediaFields { ty, text, url, urls } = self;
        let name = match ty {
            Some(name) => name,
            None => {
                return Err(MediaError::MissingField(MediaField::Type));
            },
        };
        if same_text(name.as_str(), "text") {
            match text {
                Some(text) => Ok(Media::Text(text)),
                None => Err(MediaError::MissingField(MediaField::Text)),
            }
        } else if same_text(name.as_str(), "image_url") {
            match url {
                Some(url) => Ok(Media::ImageUrl(url)),
                None => Err(MediaError::MissingField(MediaField::ImageUrl)),
            }
        } else if same_text(name.as_str(), "video") {
            match urls {
                Some(urls) => Ok(Media::Video(urls)),
                None => Err(MediaError::MissingField(MediaField::Video)),
            }
        } else if same_text(name.as_str(), "video_url") {
            match url {
                Some(url) => Ok(Media::VideoUrl(url)),
                None => Err(MediaError::MissingField(MediaField::VideoUrl)),
            }
        } else {
            Err(MediaError::UnknownVariant(name))
        }
    }
}

/// Reads the entries of one object, in the order in which they were written,
/// into the media that they stand for.
pub fn decode_media(entries: Vec<MediaEntry>) -> (result: Result<Media, MediaError>)
    ensures
        media_result_view(result) == decoded_media(entries_view(entries@)),
{
    let ghost all = entries_view(entries@);
    let mut fields = MediaFields::new();
    for entry in it: entries
        invariant
            it.seq() == entries@,
            all == entries_view(entries@),
            read_entries(all.take(it.index() as int)) == Ok::<MediaFieldsView, MediaErrorView>(
                fields@,
            ),
    {
        let ghost i = it.index() as int;
        proof {
            assert(all.take(i + 1).drop_last() =~= all.take(i));
            assert(all.take(i + 1).last() == entry@);
        }
        match fields.put(entry) {
            Ok(()) => {},
            Err(error) => {
                proof {
                    lemma_read_error_stays(all, i + 1);
                }
                return Err(error);
            },
        }
    }
    assert(all.take(all.len() as int) =~= all);
    fields.finish()
}

/// Once the reading has failed, later entries do not change the error.
pub proof fn lemma_read_error_stays(entries: Seq<MediaEntryView>, n: int)
    requires
        0 <= n <= entries.len(),
        read_entries(entries.take(n)) is Err,
    ensures
        read_entries(entries) == read_entries(entries.take(n)),
    decreases entries.len() - n,
{
    if n == entries.len() {
        assert(entries.take(n) =~= entries);
    } else {
        assert(entries.take(n + 1).drop_last() =~= entries.take(n));
        lemma_read_error_stays(entries, n + 1);
    }
}

/// A copy of a list of texts.
fn copy_texts(texts: &Vec<String>) -> (copy: Vec<String>)
    ensures
        texts_view(copy@) == texts_view(texts@),
{
    let mut copy: Vec<String> = Vec::new();
    let mut i: usize = 0;
    while i < texts.len()
        invariant
            i <= texts.len(),
            copy.len() == i,
            forall|j: int| 0 <= j < i ==> copy@[j]@ == texts@[j]@,
        decreases texts.len() - i,
    {
        copy.push(texts[i].clone());
        i += 1;
    }
    assert(texts_view(copy@) =~= texts_view(texts@));
    copy
}

impl Media {
    /// The key under which the value of this media is written, which is also
    /// the text of its type.
    pub fn kind(&self) -> (field: MediaField)
        ensures
            field == self@.kind(),
    {
        match self {
            Media::Text(_) => MediaField::Text,
            Media::ImageUrl(_) => MediaField::ImageUrl,
            Media::Video(_) => MediaField::Video,
            Media::VideoUrl(_) => MediaField::VideoUrl,
        }
    }

    /// The entries that stand for this media on the wire.
    pub fn entries(&self) -> (entries: Vec<MediaEntry>)
        ensures
            entries_view(entries@) == wire_entries(self@),
    {
        let value = match self {
            Media::Text(text) => MediaEntry::Text(text.clone()),
            Media::ImageUrl(url) => MediaEntry::ImageUrl(url.clone()),
            Media::Video(urls) => MediaEntry::Video(copy_texts(urls)),
            Media::VideoUrl(url) => MediaEntry::VideoUrl(url.clone()),
        };
        let mut entries: Vec<MediaEntry> = Vec::new();
        entries.push(MediaEntry::Type(self.kind().name().to_owned()));
        entries.push(value);
        assert(entries_view(entries@) =~= wire_entries(self@));
        entries
    }
}

impl MediaView {
    /// The key under which the value of a media is written.
    pub open spec fn kind(self) -> MediaField {
        match self {
            MediaView::Text(_) => MediaField::Text,
            MediaView::ImageUrl(_) => MediaField::ImageUrl,
            MediaView::Video(_) => MediaField::Video,
            MediaView::VideoUrl(_) => MediaField::VideoUrl,
        }
    }
}

/// What is written for a media reads back as that media.
pub proof fn lemma_media_round_trip(media: MediaView)
    ensures
        decoded_media(wire_entries(media)) == Ok::<MediaView, MediaErrorView>(media),
{
    let entries = wire_entries(media);
    let one = entries.drop_last();
    assert(one.drop_last() =~= Seq::<MediaEntryView>::empty());
    assert(read_entries(one.drop_last()) == Ok::<MediaFieldsView, MediaErrorView>(
        MediaFieldsView::empty(),
    ));
    assert(read_entries(one) == Ok::<MediaFieldsView, MediaErrorView>(
        MediaFieldsView { ty: Some(media.kind().name_view()), ..MediaFieldsView::empty() },
    ));
    lemma_field_names_distinct_all();
}

/// The five keys differ pairwise.
pub proof fn lemma_field_names_distinct_all()
    ensures
        forall|f: MediaField, g: MediaField| #[trigger]
            f.name_view() == #[trigger] g.name_view() ==> f == g,
{
    assert forall|f: MediaField, g: MediaField| #[trigger]
        f.name_view() == #[trigger] g.name_view() implies f == g by {
        lemma_field_names_distinct(f, g);
    }
}

} // verus!
