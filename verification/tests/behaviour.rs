use image2d::{
    luma_alpha_to_luma, rgba_to_rgb, Image2D, Image2DMut, ImageBuffer2D, ImageError, Luma, LumaA,
    Pixel, Primitive, Rect, Region, Rgb, RgbA,
};

fn ramp(w: u32, h: u32) -> ImageBuffer2D<Luma<u32>> {
    ImageBuffer2D::generate(w, h, |(x, y)| Luma::new([100 * y + x]))
}

fn values(img: &ImageBuffer2D<Luma<u32>>) -> Vec<u32> {
    img.iter().to_vec().iter().map(|p| p.data[0]).collect()
}

#[test]
fn round_trip_reproduces_the_flat_sequence() {
    let v: Vec<Luma<u32>> = (0..12).map(|n| Luma::new([7 * n + 1])).collect();
    let img = ImageBuffer2D::from_vec(4, 3, v.clone()).unwrap();
    assert_eq!(img.as_slice().unwrap(), &v[..]);
    let read: Vec<Luma<u32>> = img.iter().to_vec().into_iter().cloned().collect();
    assert_eq!(read, v);
    for y in 0..3u32 {
        for x in 0..4u32 {
            assert_eq!(img.get_pixel(x, y), &v[(y * 4 + x) as usize]);
        }
    }
    assert_eq!(img.into_raw_vec(), v);
}

#[test]
fn from_vec_refuses_a_wrong_length() {
    let v: Vec<Luma<u8>> = (0..6).map(|n| Luma::new([n])).collect();
    assert_eq!(
        ImageBuffer2D::from_vec(4, 2, v.clone()).err(),
        Some(ImageError::InvalidDimensions { width: 4, height: 2, len: 6 })
    );
    assert_eq!(
        ImageBuffer2D::from_vec(u32::MAX, u32::MAX, v.clone()).err(),
        Some(ImageError::InvalidDimensions { width: u32::MAX, height: u32::MAX, len: 6 })
    );
    assert!(ImageBuffer2D::from_vec(0, 5, Vec::<Luma<u8>>::new()).is_ok());
    assert!(ImageBuffer2D::from_vec(0, 5, v).is_err());
}

#[test]
fn from_raw_vec_chunks_the_channels() {
    let raw = [1u8, 2, 3, 4, 5, 6, 7, 8, 9, 10, 11, 12];
    let img = ImageBuffer2D::<Rgb<u8>>::from_raw_vec(2, 2, &raw).unwrap();
    assert_eq!(img.dimensions(), (2, 2));
    assert_eq!(img.get_pixel(0, 0), &Rgb::new([1, 2, 3]));
    assert_eq!(img.get_pixel(1, 0), &Rgb::new([4, 5, 6]));
    assert_eq!(img.get_pixel(0, 1), &Rgb::new([7, 8, 9]));
    assert_eq!(img.get_pixel(1, 1), &Rgb::new([10, 11, 12]));
}

#[test]
fn from_raw_vec_refuses_what_does_not_fit() {
    let raw = [1u8, 2, 3, 4, 5, 6, 7];
    assert_eq!(
        ImageBuffer2D::<Rgb<u8>>::from_raw_vec(1, 2, &raw).err(),
        Some(ImageError::IncompletePixel { len: 7, channels: 3 })
    );
    assert_eq!(
        ImageBuffer2D::<Rgb<u8>>::from_raw_vec(2, 2, &raw[..6]).err(),
        Some(ImageError::IncorrectBufferSize { pixels: 2, width: 2, height: 2 })
    );
    assert_eq!(
        ImageBuffer2D::<Luma<u8>>::from_raw_vec(3, 3, &raw).err(),
        Some(ImageError::IncorrectBufferSize { pixels: 7, width: 3, height: 3 })
    );
    assert!(ImageBuffer2D::<Rgb<u8>>::from_raw_vec(1, 2, &raw[..6]).is_ok());
}

#[test]
fn dimensions_stay_as_constructed() {
    let mut img = ramp(6, 4);
    assert_eq!(img.dimensions(), (6, 4));
    assert_eq!(img.iter().len(), 24);
    img.put_pixel(5, 3, Luma::new([1]));
    assert_eq!(img.dimensions(), (6, 4));
    img.fill_rect(Rect::new(1, 1, 2, 2), &Luma::new([2]));
    assert_eq!(img.dimensions(), (6, 4));
    let other = ramp(3, 3);
    img.blit_rect(Rect::new(0, 0, 3, 3), Rect::new(3, 1, 3, 3), &other).unwrap();
    assert_eq!(img.dimensions(), (6, 4));
    img.fill(&Luma::new([3]));
    assert_eq!(img.dimensions(), (6, 4));
    {
        let mut view = img.sub_image_mut(Rect::new(2, 1, 3, 2));
        assert_eq!(view.dimensions(), (3, 2));
        view.fill(&Luma::new([4]));
        assert_eq!(view.dimensions(), (3, 2));
    }
    assert_eq!(img.dimensions(), (6, 4));
    assert_eq!(img.width() * img.height(), img.iter().len() as u32);
    assert_eq!(img.into_raw_vec().len(), 24);
}

#[test]
fn sub_image_holds_the_generated_pixels() {
    let img = ramp(7, 5);
    let (ox, oy, w, h) = (2u32, 1u32, 4u32, 3u32);
    let sub = img.sub_image(Rect::new(ox, oy, w, h));
    assert_eq!(sub.dimensions(), (w, h));
    for ly in 0..h {
        for lx in 0..w {
            assert_eq!(sub.get_pixel(lx, ly).data[0], 100 * (oy + ly) + ox + lx);
            assert_eq!(sub[(lx, ly)].data[0], 100 * (oy + ly) + ox + lx);
        }
    }
    let mut it = sub.enumerate_pixels();
    assert_eq!(it.len(), 12);
    let mut seen = 0;
    while let Some(((row, col), p)) = it.next() {
        assert_eq!(p.data[0], 100 * (oy + row as u32) + ox + col as u32);
        assert_eq!(row * 4 + col, seen);
        seen += 1;
    }
    assert_eq!(seen, 12);
    let nested = sub.sub_image(Rect::new(1, 1, 2, 2));
    let read: Vec<u32> = nested.iter().to_vec().iter().map(|p| p.data[0]).collect();
    assert_eq!(read, vec![203, 204, 303, 304]);
}

#[test]
fn enumerate_pixels_gives_row_then_column() {
    let img = ramp(3, 2);
    let mut it = img.enumerate_pixels();
    let mut seen = Vec::new();
    while let Some((idx, p)) = it.next() {
        seen.push((idx, p.data[0]));
    }
    assert_eq!(
        seen,
        vec![
            ((0, 0), 0),
            ((0, 1), 1),
            ((0, 2), 2),
            ((1, 0), 100),
            ((1, 1), 101),
            ((1, 2), 102),
        ]
    );
}

#[test]
fn rows_and_columns_out_of_range_are_none() {
    let mut img = ramp(4, 2);
    assert!(img.row(2).is_none());
    assert!(img.row(u32::MAX).is_none());
    assert!(img.col(4).is_none());
    assert!(img.col(u32::MAX).is_none());
    assert!(img.row_mut(2).is_none());
    assert!(img.col_mut(4).is_none());
    for y in 0..2 {
        assert_eq!(img.row(y).unwrap().len(), 4);
        assert_eq!(img.row_mut(y).unwrap().len(), 4);
    }
    for x in 0..4 {
        assert_eq!(img.col(x).unwrap().len(), 2);
        assert_eq!(img.col_mut(x).unwrap().len(), 2);
    }
    let row: Vec<u32> = img.row(1).unwrap().to_vec().iter().map(|p| p.data[0]).collect();
    assert_eq!(row, vec![100, 101, 102, 103]);
    let col: Vec<u32> = img.col(3).unwrap().to_vec().iter().map(|p| p.data[0]).collect();
    assert_eq!(col, vec![3, 103]);
    let empty = ramp(0, 3);
    assert!(empty.col(0).is_none());
    assert_eq!(empty.row(1).unwrap().len(), 0);
}

#[test]
fn cursors_advance_at_both_ends() {
    let img = ramp(3, 2);
    let mut it = img.iter();
    assert_eq!(it.len(), 6);
    assert_eq!(it.next().unwrap().data[0], 0);
    assert_eq!(it.next_back().unwrap().data[0], 102);
    assert_eq!(it.next_back().unwrap().data[0], 101);
    assert_eq!(it.len(), 3);
    assert_eq!(it.next().unwrap().data[0], 1);
    assert_eq!(it.next().unwrap().data[0], 2);
    assert_eq!(it.next_back().unwrap().data[0], 100);
    assert!(it.next().is_none());
    assert!(it.next_back().is_none());
    assert_eq!(it.len(), 0);

    let mut rows = img.rows();
    let last: Vec<u32> = rows.next_back().unwrap().to_vec().iter().map(|p| p.data[0]).collect();
    assert_eq!(last, vec![100, 101, 102]);
    assert_eq!(rows.len(), 1);
    let first: Vec<u32> = rows.next().unwrap().to_vec().iter().map(|p| p.data[0]).collect();
    assert_eq!(first, vec![0, 1, 2]);
    assert!(rows.next().is_none());
    assert!(rows.next_back().is_none());

    let mut cols = img.cols();
    let right: Vec<u32> = cols.next_back().unwrap().to_vec().iter().map(|p| p.data[0]).collect();
    assert_eq!(right, vec![2, 102]);
    let left: Vec<u32> = cols.next().unwrap().to_vec().iter().map(|p| p.data[0]).collect();
    assert_eq!(left, vec![0, 100]);
    assert_eq!(cols.len(), 1);

    let mut col = img.col(1).unwrap();
    assert_eq!(col.next_back().unwrap().data[0], 101);
    assert_eq!(col.next().unwrap().data[0], 1);
    assert!(col.next().is_none());
}

#[test]
fn rect_iter_of_an_empty_rect_is_empty() {
    let img = ramp(4, 4);
    let mut it = img.rect_iter(Rect::new(2, 2, 0, 2));
    assert_eq!(it.len(), 0);
    assert!(it.next().is_none());
    let mut it = img.rect_iter(Rect::new(4, 4, 0, 0));
    assert!(it.next().is_none());
    let it = img.rect_iter(Rect::new(1, 2, 3, 2));
    let read: Vec<u32> = it.to_vec().iter().map(|p| p.data[0]).collect();
    assert_eq!(read, vec![201, 202, 203, 301, 302, 303]);
}

#[test]
fn translate_rect_clips_at_every_edge() {
    let img = ramp(5, 5);
    let r = Rect::new(1, 1, 3, 3);
    assert_eq!(img.translate_rect(r, 0, 0), Some(r));
    assert_eq!(img.translate_rect(r, 1, 0), Some(Rect::new(2, 1, 3, 3)));
    assert_eq!(img.translate_rect(r, 3, 0), Some(Rect::new(4, 1, 1, 3)));
    assert_eq!(img.translate_rect(r, 0, -3), Some(Rect::new(1, 0, 3, 1)));
    assert_eq!(img.translate_rect(r, -3, 3), Some(Rect::new(0, 4, 1, 1)));
    assert_eq!(img.translate_rect(r, 4, 0), None);
    assert_eq!(img.translate_rect(r, 0, -4), None);
    assert_eq!(img.translate_rect(r, i64::MAX, i64::MAX), None);
    assert_eq!(img.translate_rect(r, i64::MIN, i64::MIN), None);
    assert_eq!(img.translate_rect(Rect::new(1, 1, 0, 3), 0, 0), None);
    assert_eq!(img.translate_rect(Rect::new(1, 1, 3, 0), 0, 0), None);
    let huge = Rect::new(u32::MAX, u32::MAX, u32::MAX, u32::MAX);
    assert_eq!(img.translate_rect(huge, 0, 0), None);
    assert_eq!(
        img.translate_rect(huge, -(u32::MAX as i64) - 10, -(u32::MAX as i64)),
        Some(Rect::new(0, 0, 5, 5))
    );
    let empty = ramp(0, 0);
    assert_eq!(empty.translate_rect(r, -1, -1), None);
    let sub = img.sub_image(Rect::new(1, 1, 2, 2));
    assert_eq!(sub.translate_rect(Rect::new(0, 0, 2, 2), 1, 1), Some(Rect::new(1, 1, 1, 1)));
}

#[test]
fn fill_then_blit_makes_the_buffers_equal() {
    let mut target = ImageBuffer2D::<Luma<u8>>::new(64, 64);
    let mut filled = ImageBuffer2D::<Luma<u8>>::new(64, 64);
    let r = Rect::new(16, 16, 32, 32);
    assert!(target == filled);
    filled.fill_rect(r, &Luma::new([9]));
    assert!(target != filled);
    assert_eq!(target.blit_rect(r, r, &filled), Ok(()));
    assert!(target == filled);
    assert_eq!(target.get_pixel(16, 16).data[0], 9);
    assert_eq!(target.get_pixel(47, 47).data[0], 9);
    assert_eq!(target.get_pixel(15, 16).data[0], 0);
    assert_eq!(target.get_pixel(48, 47).data[0], 0);
}

#[test]
fn blit_pairs_pixels_in_scanline_order() {
    let src = ramp(4, 4);
    let mut dst = ImageBuffer2D::<Luma<u32>>::new(5, 3);
    dst.blit_rect(Rect::new(1, 2, 3, 2), Rect::new(2, 0, 3, 2), &src).unwrap();
    assert_eq!(
        values(&dst),
        vec![0, 0, 201, 202, 203, 0, 0, 301, 302, 303, 0, 0, 0, 0, 0]
    );
    let view = src.sub_image(Rect::new(2, 2, 2, 2));
    dst.blit_rect(Rect::new(0, 0, 2, 2), Rect::new(0, 1, 2, 2), &view).unwrap();
    assert_eq!(
        values(&dst),
        vec![0, 0, 201, 202, 203, 202, 203, 301, 302, 303, 302, 303, 0, 0, 0]
    );
}

#[test]
fn blit_refuses_and_writes_nothing() {
    let src = ramp(4, 4);
    let mut dst = ramp(3, 3);
    let before = values(&dst);
    assert_eq!(
        dst.blit_rect(Rect::new(0, 0, 2, 2), Rect::new(0, 0, 2, 3), &src),
        Err(ImageError::RectSizeMismatch {
            source_width: 2,
            source_height: 2,
            destination_width: 2,
            destination_height: 3,
        })
    );
    assert_eq!(
        dst.blit_rect(Rect::new(3, 3, 2, 2), Rect::new(0, 0, 2, 2), &src),
        Err(ImageError::SourceRectOutOfBounds)
    );
    assert_eq!(
        dst.blit_rect(Rect::new(0, 0, 2, 2), Rect::new(2, 2, 2, 2), &src),
        Err(ImageError::DestinationRectOutOfBounds)
    );
    assert_eq!(
        dst.blit_rect(Rect::new(9, 9, 2, 2), Rect::new(9, 9, 2, 2), &src),
        Err(ImageError::SourceRectOutOfBounds)
    );
    assert_eq!(
        dst.blit_rect(Rect::new(u32::MAX, 0, 2, 2), Rect::new(0, 0, 2, 2), &src),
        Err(ImageError::SourceRectOutOfBounds)
    );
    assert_eq!(values(&dst), before);
    assert!(ImageError::RectSizeMismatch {
        source_width: 2,
        source_height: 2,
        destination_width: 2,
        destination_height: 3,
    }
    .is_dimension_error());
    assert!(!ImageError::SourceRectOutOfBounds.is_dimension_error());
    assert!(!ImageError::DestinationRectOutOfBounds.is_dimension_error());
    assert!(ImageError::InvalidDimensions { width: 1, height: 1, len: 0 }.is_dimension_error());
}

#[test]
fn arithmetic_on_differing_dimensions_is_an_error() {
    let a = ImageBuffer2D::<Luma<u8>>::from_raw_vec(3, 2, &[1, 2, 3, 4, 5, 6]).unwrap();
    let b = ImageBuffer2D::<Luma<u8>>::from_raw_vec(2, 3, &[1, 2, 3, 4, 5, 6]).unwrap();
    let expected = Some(ImageError::DimensionMismatch {
        left_width: 3,
        left_height: 2,
        right_width: 2,
        right_height: 3,
    });
    assert_eq!((&a + &b).err(), expected);
    assert_eq!((&a - &b).err(), expected);
    assert_eq!((&a * &b).err(), expected);
    assert_eq!((&a / &b).err(), expected);
    assert_eq!((&a % &b).err(), expected);
    assert!(expected.unwrap().is_dimension_error());
    assert_eq!(a.into_raw_vec().len(), 6);
    assert_eq!(b.into_raw_vec().len(), 6);
}

#[test]
fn arithmetic_works_pixel_by_pixel() {
    let a = ImageBuffer2D::<Luma<u8>>::from_raw_vec(3, 2, &[10, 20, 30, 40, 50, 60]).unwrap();
    let b = ImageBuffer2D::<Luma<u8>>::from_raw_vec(3, 2, &[3, 7, 4, 6, 5, 4]).unwrap();
    let raw = |img: ImageBuffer2D<Luma<u8>>| -> Vec<u8> {
        img.into_raw_vec().iter().map(|p| p.data[0]).collect()
    };
    assert_eq!(raw((&a + &b).unwrap()), vec![13, 27, 34, 46, 55, 64]);
    assert_eq!(raw((&a - &b).unwrap()), vec![7, 13, 26, 34, 45, 56]);
    assert_eq!(raw((&a * &b).unwrap()), vec![30, 140, 120, 240, 250, 240]);
    assert_eq!(raw((&a / &b).unwrap()), vec![3, 2, 7, 6, 10, 15]);
    assert_eq!(raw((&a % &b).unwrap()), vec![1, 6, 2, 4, 0, 0]);

    let big = ramp(4, 4);
    let left = big.sub_image(Rect::new(0, 0, 2, 2));
    let right = big.sub_image(Rect::new(2, 2, 2, 2));
    let sum = (&left + &right).unwrap();
    assert_eq!(values(&sum), vec![202, 204, 402, 404]);
    let mixed = (&sum - &left).unwrap();
    assert_eq!(values(&mixed), vec![202, 203, 302, 303]);
}

#[test]
fn writes_through_a_window_show_in_the_parent() {
    let mut img = ramp(5, 4);
    let before = values(&img);
    let rect = Rect::new(1, 1, 3, 2);
    {
        let mut view = img.sub_image_mut(rect);
        assert_eq!(view.get_pixel(0, 0).data[0], 101);
        view.put_pixel(0, 0, Luma::new([7]));
        *view.get_pixel_mut(2, 1) = Luma::new([8]);
        {
            let mut inner = view.sub_image_mut(Rect::new(1, 0, 2, 2));
            inner.put_pixel(0, 1, Luma::new([9]));
            assert!(inner.as_slice().is_none());
        }
        assert_eq!(view.get_pixel(1, 1).data[0], 9);
    }
    for y in 0..4u32 {
        for x in 0..5u32 {
            let expected = match (x, y) {
                (1, 1) => 7,
                (3, 2) => 8,
                (2, 2) => 9,
                _ => before[(y * 5 + x) as usize],
            };
            assert_eq!(img.get_pixel(x, y).data[0], expected);
            if !rect.contains(x, y) {
                assert_eq!(img.get_pixel(x, y).data[0], 100 * y + x);
            }
        }
    }
}

#[test]
fn fill_through_a_window_stays_inside_it() {
    let mut img = ramp(4, 4);
    {
        let mut view = img.sub_image_mut(Rect::new(1, 0, 2, 4));
        view.fill(&Luma::new([5]));
        view.fill_rect(Rect::new(1, 1, 1, 2), &Luma::new([6]));
        let src = ramp(1, 1);
        view.blit_rect(Rect::new(0, 0, 1, 1), Rect::new(0, 3, 1, 1), &src).unwrap();
    }
    assert_eq!(
        values(&img),
        vec![0, 5, 5, 3, 100, 5, 6, 103, 200, 5, 6, 203, 300, 0, 5, 303]
    );
}

#[test]
fn indexed_access_follows_scanline_order() {
    let mut img = ramp(3, 3);
    {
        let mut pixels = img.rect_iter_mut(Rect::new(1, 0, 2, 3));
        assert_eq!(pixels.len(), 6);
        assert_eq!(pixels.index_of(3), (1, 1));
        for i in 0..pixels.len() {
            pixels.set(i, Luma::new([i as u32]));
        }
    }
    assert_eq!(values(&img), vec![0, 0, 1, 100, 2, 3, 200, 4, 5]);
    {
        let mut all = img.iter_mut();
        assert_eq!(all.len(), 9);
        *all.get_mut(8) = Luma::new([42]);
    }
    assert_eq!(img.get_pixel(2, 2).data[0], 42);
}

#[test]
fn mutable_cursors_advance_at_both_ends() {
    let mut img = ramp(3, 3);
    {
        let mut it = img.iter_mut();
        assert_eq!(it.len(), 9);
        *it.next().unwrap() = Luma::new([1]);
        *it.next_back().unwrap() = Luma::new([2]);
        assert_eq!(it.len(), 7);
        assert_eq!(it.index_of(0), (0, 1));
        assert_eq!(it.get_mut(0).data[0], 1);
        it.set(6, Luma::new([3]));
        let mut left = 0;
        while let Some(_) = it.next_back() {
            left += 1;
        }
        assert_eq!(left, 7);
        assert!(it.next().is_none());
    }
    assert_eq!(values(&img), vec![1, 1, 2, 100, 101, 102, 200, 3, 2]);
    {
        let mut rows = img.rows_mut();
        assert_eq!(rows.len(), 3);
        {
            let mut last = rows.next_back().unwrap();
            assert_eq!(last.len(), 3);
            *last.next_back().unwrap() = Luma::new([9]);
        }
        {
            let mut first = rows.next().unwrap();
            *first.next().unwrap() = Luma::new([8]);
        }
        assert_eq!(rows.len(), 1);
        {
            let mut middle = rows.row_mut(0);
            middle.set(1, Luma::new([7]));
        }
        assert!(rows.next().is_some());
        assert!(rows.next().is_none());
        assert!(rows.next_back().is_none());
    }
    assert_eq!(values(&img), vec![8, 1, 2, 100, 7, 102, 200, 3, 9]);
    {
        let mut cols = img.cols_mut();
        {
            let mut right = cols.next_back().unwrap();
            *right.next().unwrap() = Luma::new([4]);
        }
        {
            let mut left = cols.next().unwrap();
            *left.next_back().unwrap() = Luma::new([5]);
        }
        {
            let mut middle = cols.col_mut(0);
            assert_eq!(middle.len(), 3);
            *middle.get_mut(2) = Luma::new([6]);
        }
        assert_eq!(cols.len(), 1);
    }
    assert_eq!(values(&img), vec![8, 1, 4, 100, 7, 102, 5, 6, 9]);
    {
        let mut pixels = img.enumerate_pixels_mut();
        assert_eq!(pixels.len(), 9);
        while let Some(((row, col), p)) = pixels.next() {
            *p = Luma::new([(10 * row + col) as u32]);
        }
        assert_eq!(pixels.len(), 0);
    }
    assert_eq!(values(&img), vec![0, 1, 2, 10, 11, 12, 20, 21, 22]);
}

#[test]
fn as_slice_is_some_only_for_contiguous_windows() {
    let img = ramp(4, 3);
    assert_eq!(img.as_slice().unwrap().len(), 12);
    assert_eq!(img.get_view().as_slice().unwrap().len(), 12);
    let rows = img.sub_image(Rect::new(0, 1, 4, 2));
    let slice: Vec<u32> = rows.as_slice().unwrap().iter().map(|p| p.data[0]).collect();
    assert_eq!(slice, vec![100, 101, 102, 103, 200, 201, 202, 203]);
    let part_of_row = img.sub_image(Rect::new(1, 2, 2, 1));
    let slice: Vec<u32> = part_of_row.as_slice().unwrap().iter().map(|p| p.data[0]).collect();
    assert_eq!(slice, vec![201, 202]);
    assert!(img.sub_image(Rect::new(1, 0, 2, 3)).as_slice().is_none());
    assert!(img.sub_image(Rect::new(0, 0, 3, 2)).as_slice().is_none());
    assert_eq!(img.sub_image(Rect::new(4, 3, 0, 0)).as_slice().unwrap().len(), 0);
    assert_eq!(img.sub_image(Rect::new(1, 1, 0, 2)).as_slice().unwrap().len(), 0);
}

#[test]
fn to_owned_copies_a_window() {
    let mut img = ramp(4, 3);
    let copy = img.sub_image(Rect::new(1, 1, 2, 2)).to_owned();
    img.fill(&Luma::new([0]));
    assert_eq!(copy.dimensions(), (2, 2));
    assert_eq!(values(&copy), vec![101, 102, 201, 202]);
    assert_eq!(copy.as_slice().unwrap().len(), 4);
    assert_eq!(values(&img), vec![0; 12]);
}

#[test]
fn equality_compares_dimensions_and_pixels() {
    let a = ramp(3, 2);
    let b = ramp(3, 2);
    let c = ramp(2, 3);
    let mut d = ramp(3, 2);
    d.put_pixel(2, 1, Luma::new([1]));
    assert!(a == b);
    assert!(a != c);
    assert!(a != d);
    let big = ramp(5, 5);
    let v1 = big.sub_image(Rect::new(0, 0, 3, 2));
    let v2 = a.get_view();
    assert!(v1 == v2);
    let v3 = big.sub_image(Rect::new(1, 0, 3, 2));
    assert!(v1 != v3);
    assert!(a == v1);
    assert!(v1 == a);
    assert!(a != v3);
    let mut e = ramp(3, 2);
    let window = e.sub_image_mut(Rect::new(0, 0, 3, 2));
    assert!(window == v1);
    assert!(window == a);
}

#[test]
fn rect_fits_and_contains() {
    let img = ramp(5, 4);
    assert!(Rect::new(0, 0, 5, 4).fits_image(&img));
    assert!(Rect::new(5, 4, 0, 0).fits_image(&img));
    assert!(!Rect::new(1, 0, 5, 4).fits_image(&img));
    assert!(!Rect::new(0, 1, 5, 4).fits_image(&img));
    assert!(!Rect::new(u32::MAX, 0, 2, 1).fits_image(&img));
    assert!(Rect::new(2, 1, 3, 3).fits_dimensions(5, 4));
    assert!(!Rect::new(2, 1, 4, 3).fits_dimensions(5, 4));
    assert_eq!(img.rect(), Rect::new(0, 0, 5, 4));
    let r = Rect::new(2, 3, 4, 5);
    assert_eq!((r.left(), r.top(), r.width(), r.height()), (2, 3, 4, 5));
    assert_eq!((r.right(), r.bottom()), (5, 7));
    assert_eq!(r.size(), (4, 5));
    assert!(r.contains(2, 3) && r.contains(5, 7));
    assert!(!r.contains(6, 7) && !r.contains(5, 8) && !r.contains(1, 3) && !r.contains(2, 2));
    assert!(!Rect::new(2, 3, 0, 5).contains(2, 3));
    assert!(Rect::new(u32::MAX, u32::MAX, 1, 1).contains(u32::MAX, u32::MAX));
}

#[test]
fn pixels_sum_and_map_their_channels() {
    let p = Rgb::new([1u8, 2, 3]);
    assert_eq!(p.sum(), 6);
    assert_eq!(Luma::new([9u32]).sum(), 9);
    assert_eq!(RgbA::new([10i32, -20, 30, -5]).sum(), 15);
    assert_eq!(LumaA::new([200u16, 300]).sum(), 500);
    assert_eq!(p.map(|c| c * 2), Rgb::new([2, 4, 6]));
    assert_eq!(p.channels(), &[1, 2, 3]);
    assert_eq!(Rgb::<u8>::N_CHANNELS, 3);
    assert_eq!(Luma::<u8>::N_CHANNELS, 1);
    assert_eq!(LumaA::<u8>::N_CHANNELS, 2);
    assert_eq!(RgbA::<u8>::N_CHANNELS, 4);
    let mut q = RgbA::from_slice(&[4u8, 5, 6, 7, 8]);
    assert_eq!(q, RgbA::new([4, 5, 6, 7]));
    q.set_to_slice(&[1, 2, 3, 4]);
    assert_eq!(q.data, [1, 2, 3, 4]);
    q.channels_mut()[3] = 9;
    assert_eq!(q.channels(), &[1, 2, 3, 9]);
    assert_eq!(q.clone(), q);
    assert!(q != RgbA::new([1, 2, 3, 4]));
}

#[test]
fn pixels_compute_channel_by_channel() {
    let a = Rgb::new([10u8, 20, 30]);
    let b = Rgb::new([3u8, 4, 7]);
    assert_eq!(a + b, Rgb::new([13, 24, 37]));
    assert_eq!(a - b, Rgb::new([7, 16, 23]));
    assert_eq!(a * b, Rgb::new([30, 80, 210]));
    assert_eq!(a / b, Rgb::new([3, 5, 4]));
    assert_eq!(a % b, Rgb::new([1, 0, 2]));
    assert_eq!(LumaA::new([5i16, -5]) - LumaA::new([7, 7]), LumaA::new([-2, -12]));
    assert_eq!(Luma::from(4u64) * Luma::new([5]), Luma::new([20]));
    assert_eq!(RgbA::new([1u8, 2, 3, 4]) + RgbA::new([1, 1, 1, 1]), RgbA::new([2, 3, 4, 5]));
}

#[test]
fn zero_is_the_additive_identity() {
    assert_eq!(<u8 as Primitive>::zero(), 0);
    assert_eq!(<u16 as Primitive>::zero(), 0);
    assert_eq!(<u32 as Primitive>::zero(), 0);
    assert_eq!(<u64 as Primitive>::zero(), 0);
    assert_eq!(<usize as Primitive>::zero(), 0);
    assert_eq!(<i8 as Primitive>::zero(), 0);
    assert_eq!(<i16 as Primitive>::zero(), 0);
    assert_eq!(<i32 as Primitive>::zero(), 0);
    assert_eq!(<i64 as Primitive>::zero(), 0);
    assert_eq!(<isize as Primitive>::zero(), 0);
    let img = ImageBuffer2D::<RgbA<i16>>::new(2, 2);
    assert_eq!(img.into_raw_vec(), vec![RgbA::new([0, 0, 0, 0]); 4]);
    let none = ImageBuffer2D::<Luma<u8>>::new(0, 7);
    assert_eq!(none.dimensions(), (0, 7));
    assert_eq!(none.iter().len(), 0);
}

#[test]
fn float_channels_fill_an_image() {
    let mut img = ImageBuffer2D::<Rgb<f64>>::new(3, 2);
    assert_eq!(img.get_pixel(2, 1), &Rgb::new([0.0, 0.0, 0.0]));
    img.fill_rect(Rect::new(1, 0, 2, 1), &Rgb::new([0.5, 1.5, 2.5]));
    let doubled = (&img + &img).unwrap();
    assert_eq!(doubled.get_pixel(1, 0), &Rgb::new([1.0, 3.0, 5.0]));
    assert_eq!(doubled.get_pixel(0, 0), &Rgb::new([0.0, 0.0, 0.0]));
    assert_eq!(Luma::<f32>::default(), Luma::new([0.0]));
    assert_eq!(Luma::<u8>::default(), Luma::new([0]));
    assert_eq!(RgbA::<i64>::default(), RgbA::new([0, 0, 0, 0]));
}

#[test]
fn alpha_is_discarded() {
    let rgba = ImageBuffer2D::generate(2, 2, |(x, y)| {
        RgbA::new([x as u8, y as u8, (x + y) as u8, 200])
    });
    let rgb = rgba_to_rgb(&rgba);
    assert_eq!(rgb.dimensions(), (2, 2));
    assert_eq!(
        rgb.into_raw_vec(),
        vec![
            Rgb::new([0, 0, 0]),
            Rgb::new([1, 0, 1]),
            Rgb::new([0, 1, 1]),
            Rgb::new([1, 1, 2]),
        ]
    );
    let la = ImageBuffer2D::generate(3, 1, |(x, _)| LumaA::new([x as u16 + 5, 999]));
    let view = la.sub_image(Rect::new(1, 0, 2, 1));
    let l = luma_alpha_to_luma(&view);
    assert_eq!(l.dimensions(), (2, 1));
    assert_eq!(l.into_raw_vec(), vec![Luma::new([6]), Luma::new([7])]);
}
