use vstd::prelude::*;

verus! {

/// A width and height in whole pixels.
#[derive(Clone, Copy, Debug, PartialEq, Eq, Structural)]
pub struct Size {
    pub width: u32,
    pub height: u32,
}

/// Where a scaled image is drawn inside its container.
///
/// Every length is expressed in units of `1 / unit` pixel, which keeps the
/// result exact: the left edge of the image lies `left / unit` pixels from the
/// left edge of the container, and so on.
#[derive(Clone, Copy, Debug, PartialEq, Eq, Structural)]
pub struct FitResult {
    pub left: u128,
    pub top: u128,
    pub width: u128,
    pub height: u128,
    pub unit: u128,
}

impl Size {
    pub open spec fn is_positive(self) -> bool {
        self.width > 0 && self.height > 0
    }
}

/// The image is relatively wider than the container: its ratio
/// `native.width / native.height` exceeds `container.width / container.height`.
pub open spec fn is_wider(container: Size, native: Size) -> bool {
    native.width * container.height > container.width * native.height
}

/// The placement that `fit` computes, or `None` for a zero-area input.
pub open spec fn fit_spec(container: Size, native: Size) -> Option<FitResult> {
    if !container.is_positive() || !native.is_positive() {
        None
    } else if is_wider(container, native) {
        // width-constrained: full width, padding above and below
        Some(FitResult {
            left: 0,
            top: (container.height * native.width - container.width * native.height) as u128,
            width: (2 * (container.width * native.width)) as u128,
            height: (2 * (container.width * native.height)) as u128,
            unit: (2 * native.width) as u128,
        })
    } else {
        // height-constrained: full height, padding left and right
        Some(FitResult {
            left: (container.width * native.height - container.height * native.width) as u128,
            top: 0,
            width: (2 * (container.height * native.width)) as u128,
            height: (2 * (container.height * native.height)) as u128,
            unit: (2 * native.height) as u128,
        })
    }
}

/// The content lies inside the container and has a positive area.
pub open spec fn is_contained(container: Size, r: FitResult) -> bool {
    &&& r.unit > 0
    &&& r.width > 0
    &&& r.height > 0
    &&& r.left + r.width <= container.width * r.unit
    &&& r.top + r.height <= container.height * r.unit
}

/// The content has exactly the aspect ratio of the native image.
pub open spec fn keeps_aspect(native: Size, r: FitResult) -> bool {
    r.width * native.height == r.height * native.width
}

/// The content spans the container's full width or its full height.
pub open spec fn touches_container(container: Size, r: FitResult) -> bool {
    r.width == container.width * r.unit || r.height == container.height * r.unit
}

/// The padding on the left equals the padding on the right, and the padding
/// above equals the padding below.
pub open spec fn is_centered(container: Size, r: FitResult) -> bool {
    &&& r.left == container.width * r.unit - r.left - r.width
    &&& r.top == container.height * r.unit - r.top - r.height
}

proof fn lemma_product_bounds(a: int, b: int)
    requires
        0 < a <= 0xffff_ffff,
        0 < b <= 0xffff_ffff,
    ensures
        0 < a * b <= 0xffff_fffe_0000_0001,
{
    assert(0 < a * b <= 0xffff_ffff * 0xffff_ffff) by (nonlinear_arith)
        requires
            0 < a <= 0xffff_ffff,
            0 < b <= 0xffff_ffff,
    ;
}

proof fn lemma_fit_properties(container: Size, native: Size)
    requires
        container.is_positive(),
        native.is_positive(),
    ensures
        is_contained(container, fit_spec(container, native).unwrap()),
        keeps_aspect(native, fit_spec(container, native).unwrap()),
        touches_container(container, fit_spec(container, native).unwrap()),
        is_centered(container, fit_spec(container, native).unwrap()),
{
    let cw = container.width as int;
    let ch = container.height as int;
    let nw = native.width as int;
    let nh = native.height as int;
    let r = fit_spec(container, native).unwrap();
    lemma_product_bounds(cw, nh);
    lemma_product_bounds(ch, nw);
    lemma_product_bounds(cw, nw);
    lemma_product_bounds(ch, nh);
    if is_wider(container, native) {
        assert(r.width * nh == r.height * nw) by (nonlinear_arith)
            requires
                r.width == 2 * (cw * nw),
                r.height == 2 * (cw * nh),
        ;
        assert(r.width == cw * r.unit) by (nonlinear_arith)
            requires
                r.width == 2 * (cw * nw),
                r.unit == 2 * nw,
        ;
        assert(ch * r.unit == 2 * (ch * nw)) by (nonlinear_arith)
            requires
                r.unit == 2 * nw,
        ;
    } else {
        assert(r.width * nh == r.height * nw) by (nonlinear_arith)
            requires
                r.width == 2 * (ch * nw),
                r.height == 2 * (ch * nh),
        ;
        assert(r.height == ch * r.unit) by (nonlinear_arith)
            requires
                r.height == 2 * (ch * nh),
                r.unit == 2 * nh,
        ;
        assert(cw * r.unit == 2 * (cw * nh)) by (nonlinear_arith)
            requires
                r.unit == 2 * nh,
        ;
    }
}

/// Places an image of size `native` inside a box of size `container`, as
/// large as possible without cropping or distortion, centred on the free axis.
///
/// Returns `None` when either size has zero area: such an item is not drawn.
/// When the two aspect ratios are equal the height-constrained branch is taken,
/// which fills the container exactly.
pub fn fit(container: Size, native: Size) -> (r: Option<FitResult>)
    ensures
        r == fit_spec(container, native),
        r is None <==> !container.is_positive() || !native.is_positive(),
        r matches Some(f) ==> {
            &&& is_contained(container, f)
            &&& keeps_aspect(native, f)
            &&& touches_container(container, f)
            &&& is_centered(container, f)
        },
{
    if container.width == 0 || container.height == 0 || native.width == 0 || native.height == 0 {
        return None;
    }
    proof {
        lemma_fit_properties(container, native);
    }
    let cw = container.width as u128;
    let ch = container.height as u128;
    let nw = native.width as u128;
    let nh = native.height as u128;
    proof {
        lemma_product_bounds(cw as int, nh as int);
        lemma_product_bounds(ch as int, nw as int);
        lemma_product_bounds(cw as int, nw as int);
        lemma_product_bounds(ch as int, nh as int);
    }
    if nw * ch > cw * nh {
        Some(FitResult {
            left: 0,
            top: ch * nw - cw * nh,
            width: 2 * (cw * nw),
            height: 2 * (cw * nh),
            unit: 2 * nw,
        })
    } else {
        Some(FitResult {
            left: cw * nh - ch * nw,
            top: 0,
            width: 2 * (ch * nw),
            height: 2 * (ch * nh),
            unit: 2 * nh,
        })
    }
}

} // verus!
