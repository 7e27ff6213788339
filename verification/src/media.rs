use std::path::PathBuf;
use vstd::prelude::*;

use crate::text::same_text;

verus! {

/// The kinds of artwork a game can come with.
#[derive(Debug, PartialEq, Eq)]
pub enum MediaType {
    BoxFront2D,
    BoxFront2DThumbnail,
    ScreenshotLoading,
    ScreenshotTitle,
    ScreenshotGameplay,
}

impl Clone for MediaType {
    fn clone(&self) -> (copy: Self)
        ensures
            copy == *self,
    {
        match self {
            MediaType::BoxFront2D => MediaType::BoxFront2D,
            MediaType::BoxFront2DThumbnail => MediaType::BoxFront2DThumbnail,
            MediaType::ScreenshotLoading => MediaType::ScreenshotLoading,
            MediaType::ScreenshotTitle => MediaType::ScreenshotTitle,
            MediaType::ScreenshotGameplay => MediaType::ScreenshotGameplay,
        }
    }
}

/// The kind of artwork that a name in a game's configuration stands for.
pub open spec fn media_type_named(name: Seq<char>) -> Option<MediaType> {
    if name == "2d-box-front"@ {
        Some(MediaType::BoxFront2D)
    } else if name == "2d-box-front-thumbnail"@ {
        Some(MediaType::BoxFront2DThumbnail)
    } else if name == "screenshot-loading"@ {
        Some(MediaType::ScreenshotLoading)
    } else if name == "screenshot-title"@ {
        Some(MediaType::ScreenshotTitle)
    } else if name == "screenshot-gameplay"@ {
        Some(MediaType::ScreenshotGameplay)
    } else {
        None
    }
}

/// The files that are looked for in a game's media directory, each with the
/// kind of artwork that it holds. A later file takes the place of an earlier
/// one of the same kind.
pub open spec fn default_media_files() -> Seq<(Seq<char>, MediaType)> {
    seq![
        ("2d-box-front.png"@, MediaType::BoxFront2D),
        ("2d-box-front.jpg"@, MediaType::BoxFront2D),
        ("2d-box-front-thumbnail.png"@, MediaType::BoxFront2DThumbnail),
        ("2d-box-front-thumbnail.jpg"@, MediaType::BoxFront2DThumbnail),
        ("screenshot-loading.png"@, MediaType::ScreenshotLoading),
        ("screenshot-title.png"@, MediaType::ScreenshotTitle),
        ("screenshot-gameplay.png"@, MediaType::ScreenshotGameplay),
    ]
}

impl MediaType {
    /// The files to look for in a game's media directory, in order, each
    /// with the kind of artwork that it holds.
    pub fn default_files() -> (files: Vec<(&'static str, MediaType)>)
        ensures
            files@.len() == default_media_files().len(),
            forall|i: int|
                0 <= i < files@.len() ==> (#[trigger] files@[i]).0@ == default_media_files()[i].0
                    && files@[i].1 == default_media_files()[i].1,
    {
        let mut files: Vec<(&'static str, MediaType)> = Vec::new();
        files.push(("2d-box-front.png", MediaType::BoxFront2D));
        files.push(("2d-box-front.jpg", MediaType::BoxFront2D));
        files.push(("2d-box-front-thumbnail.png", MediaType::BoxFront2DThumbnail));
        files.push(("2d-box-front-thumbnail.jpg", MediaType::BoxFront2DThumbnail));
        files.push(("screenshot-loading.png", MediaType::ScreenshotLoading));
        files.push(("screenshot-title.png", MediaType::ScreenshotTitle));
        files.push(("screenshot-gameplay.png", MediaType::ScreenshotGameplay));
        files
    }

    /// The kind of artwork that `name` stands for in a game's configuration,
    /// if it stands for one.
    pub fn from_name(name: &str) -> (media_type: Option<MediaType>)
        ensures
            media_type == media_type_named(name@),
    {
        if same_text(name, "2d-box-front") {
            Some(MediaType::BoxFront2D)
        } else if same_text(name, "2d-box-front-thumbnail") {
            Some(MediaType::BoxFront2DThumbnail)
        } else if same_text(name, "screenshot-loading") {
            Some(MediaType::ScreenshotLoading)
        } else if same_text(name, "screenshot-title") {
            Some(MediaType::ScreenshotTitle)
        } else if same_text(name, "screenshot-gameplay") {
            Some(MediaType::ScreenshotGameplay)
        } else {
            None
        }
    }
}

/// One piece of artwork: its kind and where it lies.
#[derive(Debug, PartialEq, Eq)]
pub struct Media {
    media_type: MediaType,
    path: PathBuf,
}

impl Clone for Media {
    fn clone(&self) -> (copy: Self)
        ensures
            copy == *self,
    {
        Self { media_type: self.media_type.clone(), path: self.path.clone() }
    }
}

/// What a `Media` holds.
pub ghost struct MediaView {
    pub media_type: MediaType,
    pub path: PathBuf,
}

impl View for Media {
    type V = MediaView;

    closed spec fn view(&self) -> MediaView {
        MediaView { media_type: self.media_type, path: self.path }
    }
}

impl Media {
    pub fn new(media_type: MediaType, path: PathBuf) -> (media: Self)
        ensures
            media@ == (MediaView { media_type, path }),
    {
        Self { media_type, path }
    }

    pub fn media_type(&self) -> (media_type: &MediaType)
        ensures
            *media_type == self@.media_type,
    {
        &self.media_type
    }

    pub fn path(&self) -> (path: &PathBuf)
        ensures
            *path == self@.path,
    {
        &self.path
    }
}

/// `r` hands out the optional value `o` by reference.
pub open spec fn refers_to<T>(r: Option<&T>, o: Option<T>) -> bool {
    match r {
        Some(v) => o == Some(*v),
        None => o is None,
    }
}

/// The artwork of one game. Only the thumbnail is always there.
#[derive(Debug, PartialEq, Eq)]
pub struct MediaSet {
    box_front_2d: Option<Media>,
    box_front_2d_thumbnail: Media,
    screenshot_loading: Option<Media>,
    screenshot_title: Option<Media>,
    screenshot_gameplay: Option<Media>,
}

impl Clone for MediaSet {
    fn clone(&self) -> (copy: Self)
        ensures
            copy == *self,
    {
        Self {
            box_front_2d: self.box_front_2d.clone(),
            box_front_2d_thumbnail: self.box_front_2d_thumbnail.clone(),
            screenshot_loading: self.screenshot_loading.clone(),
            screenshot_title: self.screenshot_title.clone(),
            screenshot_gameplay: self.screenshot_gameplay.clone(),
        }
    }
}

/// What a `MediaSet` holds.
pub ghost struct MediaSetView {
    pub box_front_2d: Option<Media>,
    pub box_front_2d_thumbnail: Media,
    pub screenshot_loading: Option<Media>,
    pub screenshot_title: Option<Media>,
    pub screenshot_gameplay: Option<Media>,
}

impl View for MediaSet {
    type V = MediaSetView;

    closed spec fn view(&self) -> MediaSetView {
        MediaSetView {
            box_front_2d: self.box_front_2d,
            box_front_2d_thumbnail: self.box_front_2d_thumbnail,
            screenshot_loading: self.screenshot_loading,
            screenshot_title: self.screenshot_title,
            screenshot_gameplay: self.screenshot_gameplay,
        }
    }
}

impl MediaSet {
    pub fn new(
        box_front_2d: Option<Media>,
        box_front_2d_thumbnail: Media,
        screenshot_loading: Option<Media>,
        screenshot_title: Option<Media>,
        screenshot_gameplay: Option<Media>,
    ) -> (set: Self)
        ensures
            set@ == (MediaSetView {
                box_front_2d,
                box_front_2d_thumbnail,
                screenshot_loading,
                screenshot_title,
                screenshot_gameplay,
            }),
    {
        Self {
            box_front_2d,
            box_front_2d_thumbnail,
            screenshot_loading,
            screenshot_title,
            screenshot_gameplay,
        }
    }

    pub fn box_front_2d(&self) -> (media: Option<&Media>)
        ensures
            refers_to(media, self@.box_front_2d),
    {
        self.box_front_2d.as_ref()
    }

    pub fn box_front_2d_thumbnail(&self) -> (media: &Media)
        ensures
            *media == self@.box_front_2d_thumbnail,
    {
        &self.box_front_2d_thumbnail
    }

    pub fn screenshot_loading(&self) -> (media: Option<&Media>)
        ensures
            refers_to(media, self@.screenshot_loading),
    {
        self.screenshot_loading.as_ref()
    }

    pub fn screenshot_title(&self) -> (media: Option<&Media>)
        ensures
            refers_to(media, self@.screenshot_title),
    {
        self.screenshot_title.as_ref()
    }

    pub fn screenshot_gameplay(&self) -> (media: Option<&Media>)
        ensures
            refers_to(media, self@.screenshot_gameplay),
    {
        self.screenshot_gameplay.as_ref()
    }
}

/// The artwork found for a game so far, one place for each kind.
pub struct MediaSlots {
    box_front_2d: Option<Media>,
    box_front_2d_thumbnail: Option<Media>,
    screenshot_loading: Option<Media>,
    screenshot_title: Option<Media>,
    screenshot_gameplay: Option<Media>,
}

/// What a `MediaSlots` holds.
pub ghost struct MediaSlotsView {
    pub box_front_2d: Option<Media>,
    pub box_front_2d_thumbnail: Option<Media>,
    pub screenshot_loading: Option<Media>,
    pub screenshot_title: Option<Media>,
    pub screenshot_gameplay: Option<Media>,
}

impl View for MediaSlots {
    type V = MediaSlotsView;

    closed spec fn view(&self) -> MediaSlotsView {
        MediaSlotsView {
            box_front_2d: self.box_front_2d,
            box_front_2d_thumbnail: self.box_front_2d_thumbnail,
            screenshot_loading: self.screenshot_loading,
            screenshot_title: self.screenshot_title,
            screenshot_gameplay: self.screenshot_gameplay,
        }
    }
}

/// `slots` with `media` in the place of its kind.
pub open spec fn with_media(slots: MediaSlotsView, media: Media) -> MediaSlotsView {
    match media@.media_type {
        MediaType::BoxFront2D => MediaSlotsView { box_front_2d: Some(media), ..slots },
        MediaType::BoxFront2DThumbnail => MediaSlotsView {
            box_front_2d_thumbnail: Some(media),
            ..slots
        },
        MediaType::ScreenshotLoading => MediaSlotsView { screenshot_loading: Some(media), ..slots },
        MediaType::ScreenshotTitle => MediaSlotsView { screenshot_title: Some(media), ..slots },
        MediaType::ScreenshotGameplay => MediaSlotsView {
            screenshot_gameplay: Some(media),
            ..slots
        },
    }
}

impl MediaSlots {
    /// No artwork yet.
    pub fn new() -> (slots: Self)
        ensures
            slots@ == (MediaSlotsView {
                box_front_2d: None,
                box_front_2d_thumbnail: None,
                screenshot_loading: None,
                screenshot_title: None,
                screenshot_gameplay: None,
            }),
    {
        Self {
            box_front_2d: None,
            box_front_2d_thumbnail: None,
            screenshot_loading: None,
            screenshot_title: None,
            screenshot_gameplay: None,
        }
    }

    /// Puts `media` in the place of its kind, instead of what was there.
    pub fn put(&mut self, media: Media)
        ensures
            final(self)@ == with_media(old(self)@, media),
    {
        match media.media_type {
            MediaType::BoxFront2D => {
                self.box_front_2d = Some(media);
            },
            MediaType::BoxFront2DThumbnail => {
                self.box_front_2d_thumbnail = Some(media);
            },
            MediaType::ScreenshotLoading => {
                self.screenshot_loading = Some(media);
            },
            MediaType::ScreenshotTitle => {
                self.screenshot_title = Some(media);
            },
            MediaType::ScreenshotGameplay => {
                self.screenshot_gameplay = Some(media);
            },
        }
    }

    /// The artwork as a set. Where no thumbnail was found, `default_path` is
    /// called for the path of one that stands in for it.
    pub fn into_media_set<P: FnOnce() -> PathBuf>(self, default_path: P) -> (set: MediaSet)
        requires
            call_requires(default_path, ()),
        ensures
            set@.box_front_2d == self@.box_front_2d,
            set@.screenshot_loading == self@.screenshot_loading,
            set@.screenshot_title == self@.screenshot_title,
            set@.screenshot_gameplay == self@.screenshot_gameplay,
            match self@.box_front_2d_thumbnail {
                Some(thumbnail) => set@.box_front_2d_thumbnail == thumbnail,
                None => set@.box_front_2d_thumbnail@.media_type == MediaType::BoxFront2DThumbnail
                    && call_ensures(default_path, (), set@.box_front_2d_thumbnail@.path),
            },
    {
        let thumbnail = match self.box_front_2d_thumbnail {
            Some(thumbnail) => thumbnail,
            None => Media::new(MediaType::BoxFront2DThumbnail, default_path()),
        };
        MediaSet::new(
            self.box_front_2d,
            thumbnail,
            self.screenshot_loading,
            self.screenshot_title,
            self.screenshot_gameplay,
        )
    }
}

} // verus!
