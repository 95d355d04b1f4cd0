//! Data shapes of the telemetry service.
//!
//! Floating-point sensor readings and analysis coordinates travel through
//! the coordinator untouched, so the library carries them as their decimal
//! text, exactly as they stand on the wire; the coordinator never computes
//! on them.

use vstd::prelude::*;

verus! {

/// The per-device progress record: six stage flags, the time of the last
/// write, and the last error seen.  One checkpoint per device, overwritten
/// wholesale on every stage transition.
#[derive(Debug, PartialEq)]
pub struct OperationState {
    pub one: bool,
    pub two: bool,
    pub three: bool,
    pub four: bool,
    pub five: bool,
    pub six: bool,
    pub time: String,
    pub error: String,
}

impl Clone for OperationState {
    fn clone(&self) -> (r: Self)
        ensures
            r == *self,
    {
        OperationState {
            one: self.one,
            two: self.two,
            three: self.three,
            four: self.four,
            five: self.five,
            six: self.six,
            time: self.time.clone(),
            error: self.error.clone(),
        }
    }
}

/// One telemetry submission from a device.  `image_data` is the embedded
/// image payload; `None` stands for an absent payload.
#[derive(Debug, PartialEq)]
pub struct RoverData {
    pub rover_id: i32,
    pub random_id: i32,
    pub battery_status: String,
    pub temp: String,
    pub humidity: String,
    pub image_data: Option<String>,
}

impl Clone for RoverData {
    fn clone(&self) -> (r: Self)
        ensures
            r == *self,
    {
        RoverData {
            rover_id: self.rover_id,
            random_id: self.random_id,
            battery_status: self.battery_status.clone(),
            temp: self.temp.clone(),
            humidity: self.humidity.clone(),
            image_data: match &self.image_data {
                Some(s) => Some(s.clone()),
                None => None,
            },
        }
    }
}

/// One detected coordinate of the analysis result.  The three fields hold
/// the number tokens of the wire form.
#[derive(Debug, PartialEq)]
pub struct ImageCoordinates {
    pub x: String,
    pub y: String,
    pub confidence: String,
}

/// The mathematical value of an [`ImageCoordinates`]: its three number
/// tokens as character sequences.
#[verifier::ext_equal]
pub ghost struct CoordView {
    pub x: Seq<char>,
    pub y: Seq<char>,
    pub confidence: Seq<char>,
}

impl View for ImageCoordinates {
    type V = CoordView;

    open spec fn view(&self) -> CoordView {
        CoordView { x: self.x@, y: self.y@, confidence: self.confidence@ }
    }
}

impl Clone for ImageCoordinates {
    fn clone(&self) -> (r: Self)
        ensures
            r@ == self@,
    {
        ImageCoordinates {
            x: self.x.clone(),
            y: self.y.clone(),
            confidence: self.confidence.clone(),
        }
    }
}

/// The views of a run of coordinates.
pub open spec fn coords_views(cs: Seq<ImageCoordinates>) -> Seq<CoordView> {
    cs.map_values(|c: ImageCoordinates| c@)
}

/// The body of the analysis service's reply: its own status token, the
/// processed image, and the detected coordinates in the order the service
/// listed them.
#[derive(Debug, PartialEq)]
pub struct ImageResponse {
    pub status: String,
    pub image: String,
    pub image_result: Vec<ImageCoordinates>,
}

/// The mathematical value of an [`ImageResponse`].
#[verifier::ext_equal]
pub ghost struct RespView {
    pub status: Seq<char>,
    pub image: Seq<char>,
    pub coords: Seq<CoordView>,
}

impl View for ImageResponse {
    type V = RespView;

    open spec fn view(&self) -> RespView {
        RespView { status: self.status@, image: self.image@, coords: coords_views(self.image_result@) }
    }
}

/// The outcome returned synchronously to the submitter.  `rover_state`
/// doubles as the terminal reason: 1 success, 2 blocked, 3 suspended,
/// 4 payload or processing failure.
#[derive(Debug, PartialEq)]
pub struct OperationResult {
    pub rover_state: i32,
    pub random_id: String,
    pub base64_image: String,
    pub image_result: Vec<ImageCoordinates>,
}

/// The request body of one analysis call.
#[derive(Debug, PartialEq)]
pub struct ImageProcessingAPICall {
    pub image: String,
}

/// A small acknowledgement shape shared by the management endpoints.
#[derive(Debug, PartialEq)]
pub struct TestResult {
    pub time: String,
    pub info: String,
    pub status: i32,
}

/// The configuration update that repoints the analysis service.
#[derive(Debug, PartialEq)]
pub struct Urls {
    pub image_server_url: String,
}

/// Registration request for a new device.
#[derive(Debug, PartialEq)]
pub struct NewRover {
    pub rover_id: i32,
    pub initial_id: i32,
    pub rover_status: i32,
    pub user_id: i32,
}

/// Status update request for an existing device.
#[derive(Debug, PartialEq)]
pub struct RoverStatus {
    pub initial_id: i32,
    pub rover_status: i32,
    pub user_id: i32,
}

/// One row of the device listing.
#[derive(Debug, PartialEq)]
pub struct RoverDetail {
    pub rover_id: i32,
    pub initial_id: i32,
    pub rover_status: i32,
    pub user_id: i32,
    pub created_at: String,
}

/// An integer position triple, an alternate coordinate shape.
#[derive(Debug, PartialEq)]
pub struct Positions {
    pub x: i32,
    pub y: i32,
    pub z: i32,
}

/// An alternate outcome shape with integer positions.
#[derive(Debug, PartialEq)]
pub struct RoverResult {
    pub random_id: i32,
    pub rover_status: i32,
    pub image_data_result: Vec<Positions>,
}

/// The acknowledgement of a recorded operation.
#[derive(Debug, PartialEq)]
pub struct OperationResults {
    pub id: String,
}

} // verus!
