//! A textual SVG description of a scene, for diagnostics.
use crate::geometry::{outline_view, Outline, Point};
use crate::paint::ColorU;
use crate::scene::{PathObject, Scene};
use vstd::prelude::*;
use vstd::string::*;

verus! {

/// The digit of value `d` (`0`..`9`, then `a`..`f`).
pub open spec fn digit_char(d: int) -> char {
    if d == 0 {
        '0'
    } else if d == 1 {
        '1'
    } else if d == 2 {
        '2'
    } else if d == 3 {
        '3'
    } else if d == 4 {
        '4'
    } else if d == 5 {
        '5'
    } else if d == 6 {
        '6'
    } else if d == 7 {
        '7'
    } else if d == 8 {
        '8'
    } else if d == 9 {
        '9'
    } else if d == 10 {
        'a'
    } else if d == 11 {
        'b'
    } else if d == 12 {
        'c'
    } else if d == 13 {
        'd'
    } else if d == 14 {
        'e'
    } else {
        'f'
    }
}

/// Decimal digits of `n`, without leading zeros.
pub open spec fn decimal(n: nat) -> Seq<char>
    decreases n,
{
    if n < 10 {
        seq![digit_char(n as int)]
    } else {
        decimal(n / 10) + seq![digit_char((n % 10) as int)]
    }
}

pub open spec fn signed_decimal(v: int) -> Seq<char> {
    if v < 0 {
        seq!['-'] + decimal((-v) as nat)
    } else {
        decimal(v as nat)
    }
}

/// Two lowercase hex digits of a byte.
pub open spec fn hex_byte(b: u8) -> Seq<char> {
    seq![digit_char((b / 16) as int), digit_char((b % 16) as int)]
}

pub open spec fn color_text(c: ColorU) -> Seq<char> {
    seq!['#'] + hex_byte(c.r) + hex_byte(c.g) + hex_byte(c.b) + hex_byte(c.a)
}

/// `x y` of a point.
pub open spec fn point_text(p: Point) -> Seq<char> {
    signed_decimal(p.x as int) + seq![' '] + signed_decimal(p.y as int)
}

/// The first `n` points of a contour: `M x y`, then ` L x y` for each other.
pub open spec fn points_text(c: Seq<Point>, n: int) -> Seq<char>
    decreases n,
{
    if n <= 0 {
        Seq::empty()
    } else if n == 1 {
        seq!['M', ' '] + point_text(c[0])
    } else {
        points_text(c, n - 1) + seq![' ', 'L', ' '] + point_text(c[n - 1])
    }
}

/// A contour's path data: its points, closed by ` z`; nothing for no point.
pub open spec fn contour_text(c: Seq<Point>) -> Seq<char> {
    if c.len() == 0 {
        Seq::empty()
    } else {
        points_text(c, c.len() as int) + seq![' ', 'z']
    }
}

/// The path data of the first `n` contours, separated by spaces.
pub open spec fn outline_text(o: Seq<Seq<Point>>, n: int) -> Seq<char>
    decreases n,
{
    if n <= 0 {
        Seq::empty()
    } else if n == 1 {
        contour_text(o[0])
    } else {
        outline_text(o, n - 1) + seq![' '] + contour_text(o[n - 1])
    }
}

fn digit_str(d: u8) -> (r: &'static str)
    requires
        d < 16,
    ensures
        r@ == seq![digit_char(d as int)],
{
    proof {
        reveal_strlit("0");
        reveal_strlit("1");
        reveal_strlit("2");
        reveal_strlit("3");
        reveal_strlit("4");
        reveal_strlit("5");
        reveal_strlit("6");
        reveal_strlit("7");
        reveal_strlit("8");
        reveal_strlit("9");
        reveal_strlit("a");
        reveal_strlit("b");
        reveal_strlit("c");
        reveal_strlit("d");
        reveal_strlit("e");
        reveal_strlit("f");
    }
    let r = if d == 0 {
        "0"
    } else if d == 1 {
        "1"
    } else if d == 2 {
        "2"
    } else if d == 3 {
        "3"
    } else if d == 4 {
        "4"
    } else if d == 5 {
        "5"
    } else if d == 6 {
        "6"
    } else if d == 7 {
        "7"
    } else if d == 8 {
        "8"
    } else if d == 9 {
        "9"
    } else if d == 10 {
        "a"
    } else if d == 11 {
        "b"
    } else if d == 12 {
        "c"
    } else if d == 13 {
        "d"
    } else if d == 14 {
        "e"
    } else {
        "f"
    };
    assert(r@ =~= seq![digit_char(d as int)]);
    r
}

fn push_str(out: &mut String, s: &str)
    ensures
        final(out)@ == old(out)@ + s@,
{
    out.append(s);
}

fn push_decimal(out: &mut String, n: u64)
    ensures
        final(out)@ == old(out)@ + decimal(n as nat),
    decreases n,
{
    let ghost start = out@;
    if n >= 10 {
        push_decimal(out, n / 10);
    }
    push_str(out, digit_str((n % 10) as u8));
    assert(out@ =~= start + decimal(n as nat));
}

fn push_signed(out: &mut String, v: i64)
    requires
        v > i64::MIN,
    ensures
        final(out)@ == old(out)@ + signed_decimal(v as int),
{
    let ghost start = out@;
    if v < 0 {
        proof {
            reveal_strlit("-");
        }
        push_str(out, "-");
        push_decimal(out, (0 - v) as u64);
    } else {
        push_decimal(out, v as u64);
    }
    assert(out@ =~= start + signed_decimal(v as int));
}

fn push_hex_byte(out: &mut String, b: u8)
    ensures
        final(out)@ == old(out)@ + hex_byte(b),
{
    let ghost start = out@;
    push_str(out, digit_str(b / 16));
    push_str(out, digit_str(b % 16));
    assert(out@ =~= start + hex_byte(b));
}

fn push_color(out: &mut String, c: ColorU)
    ensures
        final(out)@ == old(out)@ + color_text(c),
{
    let ghost start = out@;
    proof {
        reveal_strlit("#");
    }
    push_str(out, "#");
    push_hex_byte(out, c.r);
    push_hex_byte(out, c.g);
    push_hex_byte(out, c.b);
    push_hex_byte(out, c.a);
    assert(out@ =~= start + color_text(c));
}

fn push_point(out: &mut String, p: Point)
    ensures
        final(out)@ == old(out)@ + point_text(p),
{
    let ghost start = out@;
    proof {
        reveal_strlit(" ");
    }
    push_signed(out, p.x as i64);
    push_str(out, " ");
    push_signed(out, p.y as i64);
    assert(out@ =~= start + point_text(p));
}

fn push_contour(out: &mut String, c: &Vec<Point>)
    ensures
        final(out)@ == old(out)@ + contour_text(c@),
{
    let ghost start = out@;
    proof {
        reveal_strlit("M ");
        reveal_strlit(" L ");
        reveal_strlit(" z");
    }
    if c.len() == 0 {
        assert(out@ =~= start + contour_text(c@));
        return;
    }
    push_str(out, "M ");
    push_point(out, c[0]);
    assert(out@ =~= start + points_text(c@, 1));
    let mut i: usize = 1;
    while i < c.len()
        invariant
            1 <= i <= c@.len(),
            out@ == start + points_text(c@, i as int),
        decreases c@.len() - i,
    {
        proof {
            reveal_strlit(" L ");
        }
        push_str(out, " L ");
        push_point(out, c[i]);
        assert(out@ =~= start + points_text(c@, i as int + 1));
        i = i + 1;
    }
    proof {
        reveal_strlit(" z");
    }
    push_str(out, " z");
    assert(out@ =~= start + contour_text(c@));
}

fn push_outline(out: &mut String, o: &Outline)
    ensures
        final(out)@ == old(out)@ + outline_text(outline_view(*o), o.contours@.len() as int),
{
    let ghost start = out@;
    let ghost ov = outline_view(*o);
    proof {
        reveal_strlit(" ");
    }
    let mut i: usize = 0;
    while i < o.contours.len()
        invariant
            i <= o.contours@.len(),
            ov == outline_view(*o),
            out@ == start + outline_text(ov, i as int),
        decreases o.contours@.len() - i,
    {
        proof {
            reveal_strlit(" ");
        }
        if i > 0 {
            push_str(out, " ");
        }
        push_contour(out, &o.contours[i].points);
        assert(ov[i as int] == o.contours@[i as int].points@);
        assert(out@ =~= start + outline_text(ov, i as int + 1));
        i = i + 1;
    }
}

/// One object as an SVG path element: `    <path[ id="name"] fill="#rrggbbaa" d="..." />`
/// and a newline.
pub open spec fn object_text(name: Seq<char>, color: ColorU, o: Seq<Seq<Point>>) -> Seq<char> {
    "    <path"@ + (if name.len() == 0 {
        Seq::empty()
    } else {
        " id=\""@ + name + "\""@
    }) + " fill=\""@ + color_text(color) + "\" d=\""@ + outline_text(o, o.len() as int)
        + "\" />\n"@
}

/// The elements of the first `n` objects of the scene.
pub open spec fn objects_text(s: Scene, n: int) -> Seq<char>
    decreases n,
{
    if n <= 0 {
        Seq::empty()
    } else {
        let obj = s.objects@[n - 1];
        objects_text(s, n - 1) + object_text(
            obj.name@,
            s.paints@[obj.paint.0 as int].color,
            outline_view(obj.outline),
        )
    }
}

/// The whole scene: an `svg` element sized to the view box around the
/// objects' path elements.
pub open spec fn scene_text(s: Scene) -> Seq<char> {
    "<svg xmlns=\"http://www.w3.org/2000/svg\" viewBox=\""@ + signed_decimal(s.view_box.min_x as int)
        + " "@ + signed_decimal(s.view_box.min_y as int) + " "@ + signed_decimal(
        s.view_box.max_x - s.view_box.min_x,
    ) + " "@ + signed_decimal(s.view_box.max_y - s.view_box.min_y) + "\">\n"@ + objects_text(
        s,
        s.objects@.len() as int,
    ) + "</svg>\n"@
}

fn push_object(out: &mut String, object: &PathObject, color: ColorU)
    ensures
        final(out)@ == old(out)@ + object_text(
            object.name@,
            color,
            outline_view(object.outline),
        ),
{
    let ghost start = out@;
    push_str(out, "    <path");
    let ghost mid = out@;
    if object.name.as_str().unicode_len() > 0 {
        push_str(out, " id=\"");
        push_str(out, object.name.as_str());
        push_str(out, "\"");
    }
    assert(out@ =~= mid + (if object.name@.len() == 0 {
        Seq::empty()
    } else {
        " id=\""@ + object.name@ + "\""@
    }));
    push_str(out, " fill=\"");
    push_color(out, color);
    push_str(out, "\" d=\"");
    push_outline(out, &object.outline);
    push_str(out, "\" />\n");
    assert(outline_view(object.outline).len() == object.outline.contours@.len());
    assert(out@ =~= start + object_text(object.name@, color, outline_view(object.outline)));
}

impl Scene {
    /// The scene as SVG text: the view box, then each object's name, paint
    /// color and outline.
    pub fn to_svg(&self) -> (r: String)
        requires
            self.paint_ids_valid(),
        ensures
            r@ == scene_text(*self),
    {
        let mut out = String::new();
        let vb = self.view_box;
        push_str(&mut out, "<svg xmlns=\"http://www.w3.org/2000/svg\" viewBox=\"");
        push_signed(&mut out, vb.min_x as i64);
        push_str(&mut out, " ");
        push_signed(&mut out, vb.min_y as i64);
        push_str(&mut out, " ");
        push_signed(&mut out, vb.max_x as i64 - vb.min_x as i64);
        push_str(&mut out, " ");
        push_signed(&mut out, vb.max_y as i64 - vb.min_y as i64);
        push_str(&mut out, "\">\n");
        let ghost head = out@;
        let mut i: usize = 0;
        while i < self.objects.len()
            invariant
                self.paint_ids_valid(),
                i <= self.objects@.len(),
                out@ == head + objects_text(*self, i as int),
            decreases self.objects@.len() - i,
        {
            let object = &self.objects[i];
            let color = self.paints[object.paint.0 as usize].color;
            push_object(&mut out, object, color);
            assert(out@ =~= head + objects_text(*self, i as int + 1));
            i = i + 1;
        }
        push_str(&mut out, "</svg>\n");
        assert(out@ =~= scene_text(*self));
        out
    }
}

} // verus!
