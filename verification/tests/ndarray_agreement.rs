use image2d::{Image2D, ImageBuffer2D, Luma, Rect};
use ndarray::{Array2, Axis, Slice};

fn flat(w: u32, h: u32) -> Vec<Luma<u16>> {
    (0..w * h).map(|n| Luma::new([n as u16 * 3 + 1])).collect()
}

#[test]
fn windows_agree_with_ndarray_slices() {
    let (w, h) = (6u32, 5u32);
    let img = ImageBuffer2D::from_vec(w, h, flat(w, h)).unwrap();
    let arr = Array2::from_shape_vec((h as usize, w as usize), flat(w, h)).unwrap();
    for top in 0..=h {
        for left in 0..=w {
            for height in 0..=(h - top) {
                for width in 0..=(w - left) {
                    let sub = img.sub_image(Rect::new(left, top, width, height));
                    let rows = arr.slice_axis(
                        Axis(0),
                        Slice::from(top as usize..(top + height) as usize),
                    );
                    let part = rows.slice_axis(
                        Axis(1),
                        Slice::from(left as usize..(left + width) as usize),
                    );
                    assert_eq!(sub.dimensions(), (part.ncols() as u32, part.nrows() as u32));
                    let ours: Vec<&Luma<u16>> = sub.iter().to_vec();
                    let theirs: Vec<&Luma<u16>> = part.iter().collect();
                    assert_eq!(ours, theirs);
                    assert_eq!(sub.as_slice(), part.as_slice());
                    for y in 0..height {
                        for x in 0..width {
                            assert_eq!(sub.get_pixel(x, y), &part[[y as usize, x as usize]]);
                        }
                    }
                }
            }
        }
    }
}

#[test]
fn construction_agrees_with_ndarray() {
    for (w, h, len) in [(3u32, 3u32, 9u32), (2, 3, 6), (3, 3, 6), (4, 2, 6), (0, 4, 0), (0, 4, 1)] {
        let v: Vec<Luma<u16>> = (0..len).map(|n| Luma::new([n as u16])).collect();
        let ours = ImageBuffer2D::from_vec(w, h, v.clone());
        let theirs = Array2::from_shape_vec((h as usize, w as usize), v);
        assert_eq!(ours.is_ok(), theirs.is_ok());
        if let (Ok(img), Ok(arr)) = (ours, theirs) {
            assert_eq!(img.into_raw_vec(), arr.into_raw_vec());
        }
    }
}

#[test]
fn rows_and_columns_agree_with_ndarray() {
    let (w, h) = (4u32, 3u32);
    let img = ImageBuffer2D::from_vec(w, h, flat(w, h)).unwrap();
    let arr = Array2::from_shape_vec((h as usize, w as usize), flat(w, h)).unwrap();
    for y in 0..h {
        let ours: Vec<&Luma<u16>> = img.row(y).unwrap().to_vec();
        let theirs: Vec<&Luma<u16>> = arr.index_axis(Axis(0), y as usize).into_iter().collect();
        assert_eq!(ours, theirs);
    }
    for x in 0..w {
        let ours: Vec<&Luma<u16>> = img.col(x).unwrap().to_vec();
        let theirs: Vec<&Luma<u16>> = arr.index_axis(Axis(1), x as usize).into_iter().collect();
        assert_eq!(ours, theirs);
    }
    let mut ours = img.enumerate_pixels();
    for (idx, p) in arr.indexed_iter() {
        assert_eq!(ours.next(), Some((idx, p)));
    }
    assert!(ours.next().is_none());
}
