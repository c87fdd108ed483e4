//! Images: where an image comes from and how it is placed.
use vstd::prelude::*;

use crate::geometry::{Point, Rotation};
use crate::number::Fixed;

verus! {

#[verifier::external_type_specification]
#[verifier::external_body]
pub struct ExUrl(url::Url);

#[verifier::external_type_specification]
#[verifier::external_body]
pub struct ExUrlParseError(url::ParseError);

/// Whether `url::Url::parse` accepts the text as an absolute URL. The answer depends
/// on the text alone.
pub uninterp spec fn url_parses(text: Seq<char>) -> bool;

/// Relies on `url::Url::parse`: parses an absolute URL, or reports why it is not one.
#[verifier::external_body]
fn parse_url(text: &str) -> (r: Result<url::Url, url::ParseError>)
    ensures
        r is Ok <==> url_parses(text@),
{
    url::Url::parse(text)
}

/// Relies on `url::Url::as_str`: the serialization of the URL.
pub assume_specification[ url::Url::as_str ](u: &url::Url) -> &str;

/// Why a text is not an image source.
#[derive(Clone, Copy, Debug, PartialEq, Eq, Structural)]
pub enum ImageSourceError {
    /// The text is not an absolute URL.
    InvalidUrl,
}

/// Where an image is loaded from.
#[derive(Debug, PartialEq)]
pub struct ImageSource {
    pub location: url::Url,
}

impl ImageSource {
    /// The source for an already parsed URL, or the error for a text that failed to
    /// parse.
    pub fn from_parsed(parsed: Result<url::Url, url::ParseError>) -> (r: Result<
        ImageSource,
        ImageSourceError,
    >)
        ensures
            parsed is Ok <==> r is Ok,
            parsed matches Ok(u) ==> r matches Ok(s) && s.location == u,
            parsed is Err ==> r == Err::<ImageSource, _>(ImageSourceError::InvalidUrl),
    {
        match parsed {
            Ok(location) => Ok(ImageSource { location }),
            Err(_) => Err(ImageSourceError::InvalidUrl),
        }
    }

    /// Parses the text as an absolute URL.
    pub fn parse(text: &str) -> (r: Result<ImageSource, ImageSourceError>)
        ensures
            r is Ok <==> url_parses(text@),
            r is Err ==> r == Err::<ImageSource, _>(ImageSourceError::InvalidUrl),
    {
        ImageSource::from_parsed(parse_url(text))
    }

    pub fn location(&self) -> (r: &url::Url)
        ensures
            *r == self.location,
    {
        &self.location
    }

    /// The URL as text.
    pub fn as_str(&self) -> &str {
        self.location.as_str()
    }
}

/// How an image is placed: its offset, an optional size that replaces the image's own,
/// and an optional rotation.
#[derive(Clone, Copy, Debug, PartialEq, Eq, Structural)]
pub struct ImageProps {
    pub offset: Point,
    pub image_width: Option<Fixed>,
    pub image_height: Option<Fixed>,
    pub rotation: Option<Rotation>,
}

impl ImageProps {
    pub fn new(
        offset: Point,
        image_width: Option<Fixed>,
        image_height: Option<Fixed>,
        rotation: Option<Rotation>,
    ) -> (r: ImageProps)
        ensures
            r == (ImageProps { offset, image_width, image_height, rotation }),
    {
        ImageProps { offset, image_width, image_height, rotation }
    }

    /// At the origin, at the image's own size, without rotation.
    pub fn empty() -> (r: ImageProps)
        ensures
            r.offset.x.value() == 0,
            r.offset.y.value() == 0,
            r.image_width is None,
            r.image_height is None,
            r.rotation is None,
    {
        ImageProps {
            offset: Point::origin(),
            image_width: None,
            image_height: None,
            rotation: None,
        }
    }

    pub fn offset(&self) -> (r: Point)
        ensures
            r == self.offset,
    {
        self.offset
    }

    pub fn image_width(&self) -> (r: Option<Fixed>)
        ensures
            r == self.image_width,
    {
        self.image_width
    }

    pub fn image_height(&self) -> (r: Option<Fixed>)
        ensures
            r == self.image_height,
    {
        self.image_height
    }

    pub fn set_rotation(&mut self, rotation: Rotation)
        ensures
            *final(self) == (ImageProps { rotation: Some(rotation), ..*old(self) }),
    {
        self.rotation = Some(rotation);
    }
}

} // verus!
