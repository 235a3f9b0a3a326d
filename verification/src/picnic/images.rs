use vstd::prelude::*;

use crate::picnic::models::{spec_image_size_name, ImageSize};

verus! {

/// The base url of Picnic's static (unauthorised) content in the Dutch frontend.
pub open spec fn static_url() -> Seq<char> {
    "https://storefront-prod.nl.picnicinternational.com/static"@
}

/// The url of image `image_id` at size `size`: `{static}/images/{id}/{size}.png`.
pub open spec fn spec_image_url(image_id: Seq<char>, size: ImageSize) -> Seq<char> {
    static_url() + "/images/"@ + image_id + "/"@ + spec_image_size_name(size) + ".png"@
}

/// Retrieve the image url for the provided image.
///
/// No credentials are needed to retrieve these images. This gives images of the Dutch frontend.
pub fn image_url(image_id: &str, size: ImageSize) -> (res: String)
    ensures
        res@ == spec_image_url(image_id@, size),
{
    let mut url = String::from_str("https://storefront-prod.nl.picnicinternational.com/static");
    url.append("/images/");
    url.append(image_id);
    url.append("/");
    url.append(size.as_str());
    url.append(".png");
    proof {
        assert(url@ =~= spec_image_url(image_id@, size));
    }
    url
}

} // verus!
