use vstd::prelude::*;

verus! {

/// The three phases of a traffic light.
pub enum TrafficLight {
    Red,
    Yellow,
    Green,
}

impl TrafficLight {
    /// How long the light stays in this phase, in seconds.
    pub open spec fn spec_duration(&self) -> u32 {
        match self {
            TrafficLight::Red => 60,
            TrafficLight::Yellow => 10,
            TrafficLight::Green => 50,
        }
    }

    /// How long the light stays in this phase, in seconds: 60 for red, 10 for
    /// yellow, 50 for green.
    pub fn duration(&self) -> (r: u32)
        ensures
            r == self.spec_duration(),
    {
        match self {
            TrafficLight::Red => 60,
            TrafficLight::Yellow => 10,
            TrafficLight::Green => 50,
        }
    }
}

} // verus!
