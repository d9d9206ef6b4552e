//! Reading the payload off the modules of a QR code that was found in a frame.

use vstd::prelude::*;

verus! {

/// Whether a QR code can have this many modules along its side: 17 and four
/// for each of the versions 1 to 40.
pub open spec fn is_qr_side(side: u32) -> bool {
    21 <= side <= 177 && (side - 17) % 4 == 0
}

/// The payload that the modules of a QR code spell, if they spell one: the
/// result of `rqrr::Grid::decode` on the grid whose module at column `x` of
/// row `y` is dark where `data[y * side + x]` is 0.
pub uninterp spec fn grid_payload(side: u32, data: Seq<u8>) -> Option<Seq<char>>;

/// The modules of one QR code as they were sampled from an image: `side`
/// rows of `side` values, 0 for a dark module.
#[derive(Debug, PartialEq, Eq)]
pub struct QrModules {
    side: u32,
    data: Vec<u8>,
}

/// The modules as a mathematical value.
pub struct ModulesView {
    pub side: u32,
    pub data: Seq<u8>,
}

impl View for QrModules {
    type V = ModulesView;

    closed spec fn view(&self) -> ModulesView {
        ModulesView { side: self.side, data: self.data@ }
    }
}

impl ModulesView {
    /// The side is that of a QR code, and there is a value for each module.
    pub open spec fn wf(self) -> bool {
        &&& is_qr_side(self.side)
        &&& self.data.len() == self.side * self.side
    }

    /// Whether the module at column `x` of row `y` is dark.
    pub open spec fn dark(self, x: int, y: int) -> bool {
        self.data[y * self.side + x] == 0
    }
}

/// Where the module at column `x` of row `y` stands among the values.
pub proof fn lemma_module_index(side: int, x: int, y: int)
    requires
        0 <= x < side,
        0 <= y < side,
    ensures
        0 <= y * side + x < side * side,
{
    assert(0 <= y * side && y * side + side <= side * side) by (nonlinear_arith)
        requires
            0 <= y < side,
    ;
}

impl QrModules {
    #[verifier::type_invariant]
    spec fn sampled(self) -> bool {
        self@.wf()
    }

    /// Takes the values sampled for a code of `side` modules, if the side is
    /// that of a QR code and there is one value for each module.
    pub fn new(side: u32, data: Vec<u8>) -> (modules: Option<QrModules>)
        ensures
            match modules {
                Some(modules) => modules@ == (ModulesView { side, data: data@ }) && modules@.wf(),
                None => !(ModulesView { side, data: data@ }).wf(),
            },
    {
        if side < 21 || side > 177 || (side - 17) % 4 != 0 {
            return None;
        }
        assert(side * side <= 177 * 177) by (nonlinear_arith)
            requires
                0 <= side <= 177,
        ;
        if data.len() != (side * side) as usize {
            return None;
        }
        Some(QrModules { side, data })
    }

    /// How many modules the code has along its side.
    pub fn side(&self) -> (side: u32)
        ensures
            side == self@.side,
            self@.wf(),
    {
        proof {
            use_type_invariant(self);
        }
        self.side
    }

    /// The sampled values, row by row.
    pub fn data(&self) -> (data: &Vec<u8>)
        ensures
            data@ == self@.data,
            self@.wf(),
    {
        proof {
            use_type_invariant(self);
        }
        &self.data
    }

    /// Whether the module at column `x` of row `y` is dark.
    pub fn is_dark(&self, x: usize, y: usize) -> (dark: bool)
        requires
            x < self@.side,
            y < self@.side,
        ensures
            dark == self@.dark(x as int, y as int),
    {
        proof {
            use_type_invariant(self);
            lemma_module_index(self.side as int, x as int, y as int);
            assert(self.side * self.side <= 177 * 177) by (nonlinear_arith)
                requires
                    0 <= self.side <= 177,
            ;
        }
        let side = self.side as usize;
        self.data[y * side + x] == 0
    }
}

#[verifier::external_type_specification]
#[verifier::external_body]
pub struct ExDeQRError(rqrr::DeQRError);

/// Decodes the grid of modules.
///
/// Trusted: the body fills an `rqrr::SimpleGrid` with the modules through
/// `SimpleGrid::from_func`, wraps it with `rqrr::Grid::new` and calls
/// `Grid::decode`. The contract claims only that the decoder returns for a
/// grid of a QR code's size and that its result depends on the modules alone.
#[verifier::external_body]
pub(crate) fn decode_grid(modules: &QrModules) -> (decoded: Result<String, rqrr::DeQRError>)
    ensures
        match decoded {
            Ok(payload) => grid_payload(modules@.side, modules@.data) == Some(payload@),
            Err(_) => grid_payload(modules@.side, modules@.data) is None,
        },
{
    let grid = rqrr::SimpleGrid::from_func(modules.side as usize, |x, y| modules.is_dark(x, y));
    match rqrr::Grid::new(grid).decode() {
        Ok((_, payload)) => Ok(payload),
        Err(unreadable) => Err(unreadable),
    }
}

/// The payload that the modules spell, if they spell one.
pub fn read_modules(modules: &QrModules) -> (payload: Option<String>)
    ensures
        match payload {
            Some(payload) => grid_payload(modules@.side, modules@.data) == Some(payload@),
            None => grid_payload(modules@.side, modules@.data) is None,
        },
{
    match decode_grid(modules) {
        Ok(payload) => Some(payload),
        Err(_) => None,
    }
}

/// The payload of what was sampled at one place of a frame: nothing where
/// the values are not the modules of a QR code, and else what they spell.
pub fn read_candidate(side: u32, data: Vec<u8>) -> (payload: Option<String>)
    ensures
        match payload {
            Some(payload) => (ModulesView { side, data: data@ }).wf() && grid_payload(side, data@)
                == Some(payload@),
            None => !(ModulesView { side, data: data@ }).wf() || grid_payload(side, data@)
                is None,
        },
{
    match QrModules::new(side, data) {
        Some(modules) => read_modules(&modules),
        None => None,
    }
}

} // verus!
