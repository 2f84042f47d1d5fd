//! Screen areas and their division.
use vstd::prelude::*;
use ratatui::layout::{Constraint, Direction, Flex, Layout, Rect as Cells};

verus! {

/// A rectangle of terminal cells.
#[derive(Clone, Copy, Debug, PartialEq, Eq, Structural)]
pub struct Rect {
    pub x: u16,
    pub y: u16,
    pub width: u16,
    pub height: u16,
}

/// The size asked for a part of a divided area.
#[derive(Clone, Copy, Debug, PartialEq, Eq, Structural)]
pub enum Part {
    /// Exactly this many cells.
    Length(u16),
    /// At least this many cells, and what is left over.
    Min(u16),
    /// A share of what is left over, by weight.
    Fill(u16),
}

/// How an area is divided.
#[derive(Clone, Copy, Debug, PartialEq, Eq, Structural)]
pub struct Division {
    /// Whether the parts stand one below the other.
    pub vertical: bool,
    /// Whether what is left over is spread around the parts.
    pub centered: bool,
}

/// Where a rectangle starts along the direction of a division.
pub open spec fn start_of(how: Division, r: Rect) -> int {
    if how.vertical {
        r.y as int
    } else {
        r.x as int
    }
}

/// How long a rectangle is along the direction of a division.
pub open spec fn size_of(how: Division, r: Rect) -> int {
    if how.vertical {
        r.height as int
    } else {
        r.width as int
    }
}

/// The cells of an area that a division hands out: those up to the last
/// coordinate.
pub open spec fn room_of(how: Division, area: Rect) -> int {
    if start_of(how, area) + size_of(how, area) <= u16::MAX {
        size_of(how, area)
    } else {
        u16::MAX - start_of(how, area)
    }
}

/// The parts that take what is left over.
pub open spec fn growing(parts: Seq<Part>) -> int
    decreases parts.len(),
{
    if parts.len() == 0 {
        0
    } else {
        growing(parts.drop_last()) + if parts.last() is Length { 0int } else { 1 }
    }
}

/// The cells that a part asks for before anything is left over.
pub open spec fn asked(part: Part) -> int {
    match part {
        Part::Length(n) => n as int,
        Part::Min(n) => n as int,
        Part::Fill(_) => 0,
    }
}

/// The cells that a list of parts asks for.
pub open spec fn asked_in_all(parts: Seq<Part>) -> int
    decreases parts.len(),
{
    if parts.len() == 0 {
        0
    } else {
        asked_in_all(parts.drop_last()) + asked(parts.last())
    }
}

/// The size of a part where `spare` cells are left over.
pub open spec fn taken(part: Part, spare: int) -> int {
    if part is Length {
        asked(part)
    } else {
        asked(part) + spare
    }
}

/// The cells that a list of parts takes where `spare` cells are left over for
/// the one that grows.
pub open spec fn taken_in_all(parts: Seq<Part>, spare: int) -> int
    decreases parts.len(),
{
    if parts.len() == 0 {
        0
    } else {
        taken_in_all(parts.drop_last(), spare) + taken(parts.last(), spare)
    }
}

/// Whether there is room for what each part asks for.
pub open spec fn fits(parts: Seq<Part>, room: int) -> bool {
    asked_in_all(parts) <= room && forall|i: int|
        0 <= i < parts.len() && (#[trigger] parts[i]) is Min ==> asked(parts[i]) <= i16::MAX
}

/// Whether a rectangle lies in an area along the direction of a division, and
/// spans it across.
pub open spec fn lies_in(how: Division, area: Rect, r: Rect) -> bool {
    &&& start_of(how, area) <= start_of(how, r)
    &&& start_of(how, r) + size_of(how, r) <= start_of(how, area) + room_of(how, area)
    &&& if how.vertical {
        r.x == area.x && r.width == area.width
    } else {
        r.y == area.y && r.height == area.height
    }
}

/// Whether rectangles divide an area into parts: one for each part, each lying
/// in the area. Where the parts fit, they follow one another from the start with
/// the sizes asked for, and the one that grows takes the rest. A single centred
/// length is cut to the area and stands in the middle, where an odd cell is left
/// over one cell further on. Where parts do not fit, which of them are cut is
/// left open.
pub open spec fn is_division(how: Division, area: Rect, parts: Seq<Part>, r: Seq<Rect>) -> bool {
    let room = room_of(how, area);
    &&& r.len() == parts.len()
    &&& forall|i: int| 0 <= i < r.len() ==> lies_in(how, area, #[trigger] r[i])
    &&& !how.centered && fits(parts, room) ==> forall|i: int|
        0 <= i < r.len() ==> {
            let spare = room - asked_in_all(parts);
            &&& start_of(how, #[trigger] r[i]) == start_of(how, area) + taken_in_all(
                parts.take(i),
                spare,
            )
            &&& size_of(how, r[i]) == taken(parts[i], spare)
        }
    &&& how.centered && parts.len() == 1 && parts[0] is Length ==> {
        let size = if asked(parts[0]) < room { asked(parts[0]) } else { room };
        &&& size_of(how, r[0]) == size
        &&& start_of(how, r[0]) == start_of(how, area) + (room - size + 1) / 2
    }
}

/// `Layout::split`: divides an area into rectangles, one for each part. Its
/// solver is bound to keep every rectangle in order inside the area, and weighs
/// what the parts ask for: a minimum before a length before growing, and growing
/// before leaving space at the end. Where all lengths and minima fit and one part
/// at most grows, that leaves a single outcome, and so it does for one centred
/// length, whose two margins are equal before they are rounded to whole cells,
/// half a cell upward. Otherwise the outcome may differ from call to call, and
/// only what holds of each is claimed. The call panics where the solver is given
/// demands that contradict one another; the only binding ones are those of
/// order, which every area allows. Several growing parts, whose sizes the solver
/// gets by scaling, are left out.
#[verifier::external_body]
fn split(how: Division, area: Rect, parts: &Vec<Part>) -> (r: Vec<Rect>)
    requires
        growing(parts@) <= 1,
    ensures
        is_division(how, area, parts@, r@),
{
    let direction = if how.vertical { Direction::Vertical } else { Direction::Horizontal };
    let flex = if how.centered { Flex::Center } else { Flex::Start };
    let constraints = parts.iter().map(|p| match *p {
        Part::Length(n) => Constraint::Length(n),
        Part::Min(n) => Constraint::Min(n),
        Part::Fill(n) => Constraint::Fill(n),
    });
    let area = Cells { x: area.x, y: area.y, width: area.width, height: area.height };
    Layout::new(direction, constraints).flex(flex).split(area).iter().map(|a| Rect { x: a.x, y: a.y, width: a.width, height: a.height }).collect()
}

/// Whether rectangles divide an area into parts one below the other.
pub open spec fn is_rows(area: Rect, parts: Seq<Part>, r: Seq<Rect>) -> bool {
    is_division(Division { vertical: true, centered: false }, area, parts, r)
}

/// Whether rectangles divide an area into parts side by side.
pub open spec fn is_columns(area: Rect, parts: Seq<Part>, r: Seq<Rect>) -> bool {
    is_division(Division { vertical: false, centered: false }, area, parts, r)
}

/// Divides an area into parts one below the other.
pub fn split_rows(area: Rect, parts: &Vec<Part>) -> (r: Vec<Rect>)
    requires
        growing(parts@) <= 1,
    ensures
        is_rows(area, parts@, r@),
{
    split(Division { vertical: true, centered: false }, area, parts)
}

/// Divides an area into parts side by side.
pub fn split_columns(area: Rect, parts: &Vec<Part>) -> (r: Vec<Rect>)
    requires
        growing(parts@) <= 1,
    ensures
        is_columns(area, parts@, r@),
{
    split(Division { vertical: false, centered: false }, area, parts)
}

/// Where the parts fit, an area is divided in one way only.
pub proof fn fitting_parts_are_divided_in_one_way(
    how: Division,
    area: Rect,
    parts: Seq<Part>,
    a: Seq<Rect>,
    b: Seq<Rect>,
)
    requires
        !how.centered,
        fits(parts, room_of(how, area)),
        is_division(how, area, parts, a),
        is_division(how, area, parts, b),
    ensures
        a == b,
{
    assert forall|i: int| 0 <= i < a.len() implies a[i] == b[i] by {
        assert(lies_in(how, area, a[i]));
        assert(lies_in(how, area, b[i]));
        assert(start_of(how, a[i]) == start_of(how, b[i]));
        assert(size_of(how, a[i]) == size_of(how, b[i]));
    }
    assert(a =~= b);
}

proof fn taken_with_one_growing(parts: Seq<Part>, spare: int)
    ensures
        taken_in_all(parts, spare) == asked_in_all(parts) + growing(parts) * spare,
        growing(parts) >= 0,
    decreases parts.len(),
{
    if parts.len() > 0 {
        taken_with_one_growing(parts.drop_last(), spare);
        let n = growing(parts.drop_last());
        assert((n + 1) * spare == n * spare + spare) by (nonlinear_arith);
        assert(n * spare + 0 == n * spare);
    } else {
        assert(0 * spare == 0);
    }
}

/// Where the parts fit and one of them grows, they fill the area: the last one
/// ends where the area does.
pub proof fn fitting_parts_fill_the_area(
    how: Division,
    area: Rect,
    parts: Seq<Part>,
    r: Seq<Rect>,
)
    requires
        !how.centered,
        fits(parts, room_of(how, area)),
        growing(parts) == 1,
        is_division(how, area, parts, r),
    ensures
        r.len() > 0,
        start_of(how, r.last()) + size_of(how, r.last()) == start_of(how, area) + room_of(
            how,
            area,
        ),
{
    let spare = room_of(how, area) - asked_in_all(parts);
    taken_with_one_growing(parts, spare);
    assert(parts.len() > 0);
    assert(parts.take(parts.len() - 1) =~= parts.drop_last());
    assert(1 * spare == spare);
    assert(r[r.len() - 1] == r.last());
}

/// A length centred in the cells of an area: its start and its size.
pub open spec fn centred(start: int, room: int, length: int) -> (int, int) {
    let size = if length < room { length } else { room };
    (start + (room - size + 1) / 2, size)
}

/// The area of a popup: `height` rows centred in the area, and `width` columns
/// centred in those.
pub open spec fn popup_of(area: Rect, width: u16, height: u16) -> Rect {
    let (y, h) = centred(
        area.y as int,
        room_of(Division { vertical: true, centered: true }, area),
        height as int,
    );
    let (x, w) = centred(
        area.x as int,
        room_of(Division { vertical: false, centered: true }, area),
        width as int,
    );
    Rect { x: x as u16, y: y as u16, width: w as u16, height: h as u16 }
}

/// The area of a popup of the given size, centred in `area`.
pub fn popup_area(area: Rect, width: u16, height: u16) -> (r: Rect)
    ensures
        r == popup_of(area, width, height),
{
    let rows: Vec<Part> = vec![Part::Length(height)];
    proof {
        lengths_do_not_grow(rows@);
    }
    let row: Rect = split(Division { vertical: true, centered: true }, area, &rows)[0];
    let columns: Vec<Part> = vec![Part::Length(width)];
    proof {
        lengths_do_not_grow(columns@);
    }
    split(Division { vertical: false, centered: true }, row, &columns)[0]
}

proof fn lengths_do_not_grow(parts: Seq<Part>)
    requires
        forall|i: int| 0 <= i < parts.len() ==> (#[trigger] parts[i]) is Length,
    ensures
        growing(parts) == 0,
    decreases parts.len(),
{
    if parts.len() > 0 {
        let front = parts.drop_last();
        assert forall|i: int| 0 <= i < front.len() implies (#[trigger] front[i]) is Length by {
            assert(parts[i] is Length);
        }
        lengths_do_not_grow(front);
        assert(parts[parts.len() - 1] is Length);
    }
}

/// Where all parts but one are lengths, one at most grows.
pub proof fn one_part_grows(parts: Seq<Part>, k: int)
    requires
        forall|i: int| 0 <= i < parts.len() && i != k ==> (#[trigger] parts[i]) is Length,
    ensures
        0 <= growing(parts) <= 1,
    decreases parts.len(),
{
    if parts.len() > 0 {
        let front = parts.drop_last();
        assert forall|i: int| 0 <= i < front.len() && i != k implies (
        #[trigger] front[i]) is Length by {
            assert(parts[i] is Length);
        }
        if k == parts.len() - 1 {
            lengths_do_not_grow(front);
        } else {
            one_part_grows(front, k);
            assert(parts[parts.len() - 1] is Length);
        }
    }
}

/// The area of a popup lies in the area it is centred in.
pub proof fn popup_lies_in_the_area(area: Rect, width: u16, height: u16)
    ensures
        ({
            let p = popup_of(area, width, height);
            &&& area.x <= p.x && p.x + p.width <= area.x + area.width
            &&& area.y <= p.y && p.y + p.height <= area.y + area.height
            &&& p.width <= width && p.height <= height
        }),
{
}

/// An area without a margin of cells on each side; nothing where the margins
/// leave no room.
pub open spec fn inset(area: Rect, dx: u16, dy: u16) -> Rect {
    if area.width < 2 * dx || area.height < 2 * dy {
        Rect { x: 0, y: 0, width: 0, height: 0 }
    } else {
        Rect {
            x: (if area.x + dx < u16::MAX { area.x + dx } else { u16::MAX as int }) as u16,
            y: (if area.y + dy < u16::MAX { area.y + dy } else { u16::MAX as int }) as u16,
            width: (area.width - 2 * dx) as u16,
            height: (area.height - 2 * dy) as u16,
        }
    }
}

/// An area without a margin of cells on each side.
pub fn inner_area(area: Rect, dx: u16, dy: u16) -> (r: Rect)
    ensures
        r == inset(area, dx, dy),
{
    let dw: u32 = 2 * dx as u32;
    let dh: u32 = 2 * dy as u32;
    if (area.width as u32) < dw || (area.height as u32) < dh {
        Rect { x: 0, y: 0, width: 0, height: 0 }
    } else {
        let x: u32 = area.x as u32 + dx as u32;
        let y: u32 = area.y as u32 + dy as u32;
        Rect {
            x: if x < 0xffff { x as u16 } else { 0xffff },
            y: if y < 0xffff { y as u16 } else { 0xffff },
            width: (area.width as u32 - dw) as u16,
            height: (area.height as u32 - dh) as u16,
        }
    }
}

}
