use vstd::prelude::*;

verus! {

/// One display output as the compositor announced it.
///
/// `output` is the handle of the bound output object and `name` the number
/// under which the compositor's registry announced it. Position, size and
/// refresh rate stay zero until the geometry and mode events arrive.
#[derive(Debug, Clone, Copy, PartialEq, Eq, Structural)]
pub struct Monitor {
    pub output: u32,
    pub name: u32,
    pub x: i32,
    pub y: i32,
    pub width: i32,
    pub height: i32,
    pub refresh: i32,
    /// Integer scale factor of the output; 1 unless the output is scaled.
    pub scale: i32,
}

/// A length in logical pixels times a scale factor, brought into the range
/// of `u32`: a negative product counts as 0, one too large as `u32::MAX`.
pub open spec fn scaled_length(length: i32, scale: i32) -> u32 {
    let product = length as int * scale as int;
    if product < 0 {
        0u32
    } else if product > u32::MAX as int {
        u32::MAX
    } else {
        product as u32
    }
}

fn scale_length(length: i32, scale: i32) -> (r: u32)
    ensures
        r == scaled_length(length, scale),
{
    assert(-0x4000_0000_0000_0000 <= (length as int) * (scale as int) <= 0x4000_0000_0000_0000)
        by (nonlinear_arith)
        requires
            -0x8000_0000 <= length as int <= 0x7fff_ffff,
            -0x8000_0000 <= scale as int <= 0x7fff_ffff,
    ;
    let product: i64 = (length as i64) * (scale as i64);
    if product < 0 {
        0
    } else if product > u32::MAX as i64 {
        u32::MAX
    } else {
        product as u32
    }
}

impl Monitor {
    /// A newly announced output: nothing is known of it but its identity.
    pub fn new(output: u32, name: u32) -> (m: Monitor)
        ensures
            m == (Monitor { output, name, x: 0, y: 0, width: 0, height: 0, refresh: 0, scale: 1 }),
    {
        Monitor { output, name, x: 0, y: 0, width: 0, height: 0, refresh: 0, scale: 1 }
    }

    /// Size of the output in physical pixels: the logical size times the
    /// scale factor, each side brought into the range of `u32`.
    pub fn physical_size(&self) -> (size: (u32, u32))
        ensures
            size.0 == scaled_length(self.width, self.scale),
            size.1 == scaled_length(self.height, self.scale),
    {
        (scale_length(self.width, self.scale), scale_length(self.height, self.scale))
    }
}

/// Collects what is known of an output step by step; `build` yields the
/// `Monitor`.
pub struct MonitorBuilder {
    name: u32,
    x: i32,
    y: i32,
    width: i32,
    height: i32,
    refresh: i32,
    output: u32,
}

impl View for MonitorBuilder {
    type V = Monitor;

    /// The monitor that `build` would return now.
    closed spec fn view(&self) -> Monitor {
        Monitor {
            output: self.output,
            name: self.name,
            x: self.x,
            y: self.y,
            width: self.width,
            height: self.height,
            refresh: self.refresh,
            scale: 1,
        }
    }
}

impl MonitorBuilder {
    pub fn new(name: u32, output: u32) -> (b: MonitorBuilder)
        ensures
            b@ == (Monitor { output, name, x: 0, y: 0, width: 0, height: 0, refresh: 0, scale: 1 }),
    {
        MonitorBuilder { name, x: 0, y: 0, width: 0, height: 0, refresh: 0, output }
    }

    pub fn position(self, x: i32, y: i32) -> (b: MonitorBuilder)
        ensures
            b@ == (Monitor { x, y, ..self@ }),
    {
        let mut b = self;
        b.x = x;
        b.y = y;
        b
    }

    pub fn size(self, width: i32, height: i32) -> (b: MonitorBuilder)
        ensures
            b@ == (Monitor { width, height, ..self@ }),
    {
        let mut b = self;
        b.width = width;
        b.height = height;
        b
    }

    pub fn refresh(self, refresh: i32) -> (b: MonitorBuilder)
        ensures
            b@ == (Monitor { refresh, ..self@ }),
    {
        let mut b = self;
        b.refresh = refresh;
        b
    }

    pub fn build(self) -> (m: Monitor)
        ensures
            m == self@,
    {
        Monitor {
            output: self.output,
            name: self.name,
            x: self.x,
            y: self.y,
            width: self.width,
            height: self.height,
            refresh: self.refresh,
            scale: 1,
        }
    }
}

} // verus!
