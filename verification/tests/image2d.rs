use image2d::{Image2D, Image2DMut, ImageBuffer2D, Luma, Pixel, Rect, Region};

fn luma_vec(from: u8, to: u8) -> Vec<Luma<u8>> {
    (from..to).map(|n| Luma::new([n])).collect()
}

fn test_zeros_helper<P>(w: u32, h: u32, zero: P)
where
    P: Pixel + Default + std::fmt::Debug,
{
    let img = ImageBuffer2D::<P>::new(w, h);
    assert_eq!((w, h), (img.width(), img.height()));
    let mut it = img.iter();
    let mut seen = 0usize;
    while let Some(pixel) = it.next() {
        assert_eq!(pixel, &zero);
        seen += 1;
    }
    assert_eq!(seen, (w as usize) * (h as usize));
}

fn inner_block_written(img: &ImageBuffer2D<Luma<u8>>) {
    let mut it = img.enumerate_pixels();
    let mut seen = 0;
    while let Some(((y, x), p)) = it.next() {
        if x >= 1 && x <= 3 && y >= 1 && y <= 3 {
            assert_eq!(&Luma::new([(2 * x + 3 * y) as u8]), p);
        } else {
            assert_eq!(&Luma::new([0]), p);
        }
        seen += 1;
    }
    assert_eq!(seen, 25);
}

#[test]
fn test_from_vec() {
    let v1 = luma_vec(0, 9);
    let v2 = luma_vec(0, 6);

    let i1 = ImageBuffer2D::from_vec(3, 3, v1.clone()).unwrap();
    let i2 = ImageBuffer2D::from_vec(2, 3, v2.clone()).unwrap();
    let i3 = ImageBuffer2D::from_vec(3, 2, v2.clone()).unwrap();
    assert_eq!(i1.dimensions(), (3, 3));
    assert_eq!(i2.dimensions(), (2, 3));
    assert_eq!(i3.dimensions(), (3, 2));

    assert!(ImageBuffer2D::from_vec(3, 3, v2.clone()).is_err());
    assert!(ImageBuffer2D::from_vec(4, 2, v2.clone()).is_err());
    for y in 0..3 {
        for x in 0..2 {
            assert_eq!((x + y * 2) as u8, i2.get_pixel(x, y).data[0]);
        }
    }
}

#[test]
fn test_new() {
    test_zeros_helper::<Luma<u8>>(100, 200, Luma::new([0]));
    test_zeros_helper::<Luma<f32>>(100, 200, Luma::new([0.0]));
}

#[test]
fn test_into_iter() {
    let v: Vec<Luma<u8>> = (1..10).map(Luma::from).collect();
    let img = ImageBuffer2D::from_vec(3, 3, v.clone()).unwrap();

    let mut it = img.iter();
    let mut seen = 0;
    for i in v.into_iter() {
        let p = it.next().unwrap();
        assert!(&i == p);
        seen += 1;
    }
    assert!(it.next().is_none());
    assert_eq!(seen, 9);
}

#[test]
fn test_enumerate_pixels() {
    let img = ImageBuffer2D::generate(5, 3, |(x, y)| Luma::from((2 * x + 3 * y) as u8));

    let mut it = img.enumerate_pixels();
    let mut seen = 0;
    while let Some(((y, x), p)) = it.next() {
        assert_eq!((2 * x + 3 * y) as u8, p.channels()[0]);
        seen += 1;
    }
    assert_eq!(seen, 15);
}

#[test]
fn test_add() {
    let v1 = [0, 1, 2, 3, 4, 5, 6, 7, 8];
    let v2 = [8, 7, 6, 5, 4, 3, 2, 1, 0];
    let img1 = ImageBuffer2D::<Luma<u8>>::from_raw_vec(3, 3, &v1).unwrap();
    let img2 = ImageBuffer2D::<Luma<u8>>::from_raw_vec(3, 3, &v2).unwrap();
    let sum = (&img1 + &img2).unwrap();
    assert_eq!(sum.dimensions(), (3, 3));
    assert_eq!(sum.into_raw_vec(), vec![Luma::new([8u8]); 9]);
}

#[test]
fn test_row() {
    let v = [0, 1, 2, 3, 4, 5, 6, 7, 8];
    let img = ImageBuffer2D::<Luma<u8>>::from_raw_vec(3, 3, &v).unwrap();
    let row0 = img.row(0).unwrap();
    let row1 = img.row(1).unwrap();
    let row2 = img.row(2).unwrap();
    let row_out = img.row(3);
    assert_eq!(
        row0.to_vec(),
        vec![&Luma::new([0]), &Luma::new([1]), &Luma::new([2])]
    );
    assert_eq!(
        row1.to_vec(),
        vec![&Luma::new([3]), &Luma::new([4]), &Luma::new([5])]
    );
    assert_eq!(
        row2.to_vec(),
        vec![&Luma::new([6]), &Luma::new([7]), &Luma::new([8])]
    );
    assert!(row_out.is_none());
}

#[test]
fn test_row_mut() {
    let v = [0, 1, 2, 3, 4, 5, 6, 7, 8];
    let mut img = ImageBuffer2D::<Luma<u8>>::from_raw_vec(3, 3, &v).unwrap();
    {
        let mut row0 = img.row_mut(0).unwrap();
        while let Some(pix) = row0.next() {
            *pix = Luma::new([pix.data[0] * 2u8]);
        }
    }
    {
        let mut row1 = img.row_mut(1).unwrap();
        while let Some(pix) = row1.next() {
            *pix = Luma::new([pix.data[0] * 3u8]);
        }
    }
    {
        let mut row2 = img.row_mut(2).unwrap();
        while let Some(pix) = row2.next() {
            *pix = Luma::new([pix.data[0] * 4u8]);
        }
    }
    {
        let row_out = img.row_mut(3);
        assert!(row_out.is_none());
    }
    assert_eq!(
        img.into_raw_vec(),
        vec![
            Luma::new([0]),
            Luma::new([2]),
            Luma::new([4]),
            Luma::new([9]),
            Luma::new([12]),
            Luma::new([15]),
            Luma::new([24]),
            Luma::new([28]),
            Luma::new([32]),
        ]
    );
}

#[test]
fn test_rows() {
    let v = [0, 1, 2, 3, 4, 5, 6, 7, 8];
    let img = ImageBuffer2D::<Luma<u8>>::from_raw_vec(3, 3, &v).unwrap();
    let mut rows = img.rows();
    assert_eq!(rows.len(), 3);
    let mut y = 0;
    while let Some(mut row) = rows.next() {
        assert_eq!(row.len(), 3);
        let mut x = 0;
        while let Some(pix) = row.next() {
            assert_eq!(pix, &Luma::new([x as u8 + 3 * y as u8]));
            x += 1;
        }
        assert_eq!(x, 3);
        y += 1;
    }
    assert_eq!(y, 3);
}

#[test]
fn test_rows_mut() {
    let v = [0, 1, 2, 3, 4, 5, 6, 7, 8];
    let mut img = ImageBuffer2D::<Luma<u8>>::from_raw_vec(3, 3, &v).unwrap();
    {
        let mut rows = img.rows();
        let mut y = 0;
        while let Some(mut row) = rows.next() {
            let mut x = 0;
            while let Some(pix) = row.next() {
                assert_eq!(pix, &Luma::new([x as u8 + 3 * y as u8]));
                x += 1;
            }
            y += 1;
        }
        assert_eq!(y, 3);
    }
    {
        let mut rows = img.rows_mut();
        let mut y = 0;
        while let Some(mut row) = rows.next() {
            let mut x = 0;
            while let Some(pix) = row.next() {
                *pix = Luma::new([3 * x as u8 + 5 * y as u8]);
                x += 1;
            }
            y += 1;
        }
    }
    let mut rows = img.rows();
    let mut y = 0;
    while let Some(mut row) = rows.next() {
        let mut x = 0;
        while let Some(pix) = row.next() {
            assert_eq!(pix, &Luma::new([3 * x as u8 + 5 * y as u8]));
            x += 1;
        }
        assert_eq!(x, 3);
        y += 1;
    }
    assert_eq!(y, 3);
}

#[test]
fn test_col() {
    let v = [0, 1, 2, 3, 4, 5, 6, 7, 8];
    let img = ImageBuffer2D::<Luma<u8>>::from_raw_vec(3, 3, &v).unwrap();
    let col0 = img.col(0).unwrap();
    let col1 = img.col(1).unwrap();
    let col2 = img.col(2).unwrap();
    let col_out = img.col(3);
    assert_eq!(
        col0.to_vec(),
        vec![&Luma::new([0]), &Luma::new([3]), &Luma::new([6])]
    );
    assert_eq!(
        col1.to_vec(),
        vec![&Luma::new([1]), &Luma::new([4]), &Luma::new([7])]
    );
    assert_eq!(
        col2.to_vec(),
        vec![&Luma::new([2]), &Luma::new([5]), &Luma::new([8])]
    );
    assert!(col_out.is_none());
}

#[test]
fn test_col_mut() {
    let v = [0, 1, 2, 3, 4, 5, 6, 7, 8];
    let mut img = ImageBuffer2D::<Luma<u8>>::from_raw_vec(3, 3, &v).unwrap();
    {
        let mut col0 = img.col_mut(0).unwrap();
        while let Some(pix) = col0.next() {
            *pix = Luma::new([pix.data[0] * 2u8]);
        }
    }
    {
        let mut col1 = img.col_mut(1).unwrap();
        while let Some(pix) = col1.next() {
            *pix = Luma::new([pix.data[0] * 3u8]);
        }
    }
    {
        let mut col2 = img.col_mut(2).unwrap();
        while let Some(pix) = col2.next() {
            *pix = Luma::new([pix.data[0] * 4u8]);
        }
    }
    {
        let col_out = img.col_mut(3);
        assert!(col_out.is_none());
    }
    assert_eq!(
        img.into_raw_vec(),
        vec![
            Luma::new([0]),
            Luma::new([3]),
            Luma::new([8]),
            Luma::new([6]),
            Luma::new([12]),
            Luma::new([20]),
            Luma::new([12]),
            Luma::new([21]),
            Luma::new([32]),
        ]
    );
}

#[test]
fn test_cols() {
    let v = [0, 1, 2, 3, 4, 5, 6, 7, 8];
    let img = ImageBuffer2D::<Luma<u8>>::from_raw_vec(3, 3, &v).unwrap();
    let mut cols = img.cols();
    assert_eq!(cols.len(), 3);
    let mut x = 0;
    while let Some(mut col) = cols.next() {
        assert_eq!(col.len(), 3);
        let mut y = 0;
        while let Some(pix) = col.next() {
            assert_eq!(pix, &Luma::new([3 * y as u8 + x as u8]));
            y += 1;
        }
        assert_eq!(y, 3);
        x += 1;
    }
    assert_eq!(x, 3);
}

#[test]
fn test_cols_mut() {
    let v = [0, 1, 2, 3, 4, 5, 6, 7, 8];
    let mut img = ImageBuffer2D::<Luma<u8>>::from_raw_vec(3, 3, &v).unwrap();
    {
        let mut cols = img.cols();
        let mut x = 0;
        while let Some(mut col) = cols.next() {
            let mut y = 0;
            while let Some(pix) = col.next() {
                assert_eq!(pix, &Luma::new([x as u8 + 3 * y as u8]));
                y += 1;
            }
            x += 1;
        }
        assert_eq!(x, 3);
    }
    {
        let mut cols = img.cols_mut();
        let mut x = 0;
        while let Some(mut col) = cols.next() {
            let mut y = 0;
            while let Some(pix) = col.next() {
                *pix = Luma::new([3 * x as u8 + 5 * y as u8]);
                y += 1;
            }
            x += 1;
        }
    }
    let mut cols = img.cols();
    let mut x = 0;
    while let Some(mut col) = cols.next() {
        let mut y = 0;
        while let Some(pix) = col.next() {
            assert_eq!(pix, &Luma::new([3 * x as u8 + 5 * y as u8]));
            y += 1;
        }
        assert_eq!(y, 3);
        x += 1;
    }
    assert_eq!(x, 3);
}

#[test]
fn test_rect_iter() {
    let v: Vec<Luma<u8>> = (1_u8..16_u8).map(|n| Luma::new([n])).collect();
    let img = ImageBuffer2D::from_vec(5, 3, v).unwrap();
    let subimg1 = img.rect_iter(Rect::new(1, 1, 3, 1));
    assert_eq!(subimg1.len(), 3);

    let subimg1_vec: Vec<u8> = vec![7, 8, 9];
    let seen: Vec<u8> = subimg1.to_vec().iter().map(|l| l.data[0]).collect();

    assert_eq!(seen, subimg1_vec);
}

#[test]
fn test_translate_rect() {
    let img: ImageBuffer2D<Luma<u8>> = ImageBuffer2D::new(5, 5);
    let r1 = Rect::new(1, 1, 3, 3);
    let r2 = Rect::new(1, 1, 5, 5);
    assert_eq!(img.translate_rect(r1, -2, -2), Some(Rect::new(0, 0, 2, 2)));
    assert_eq!(img.translate_rect(r1, -4, -4), None);
    assert_eq!(img.translate_rect(r1, 2, 2), Some(Rect::new(3, 3, 2, 2)));
    assert_eq!(img.translate_rect(r2, 2, 2), Some(Rect::new(3, 3, 2, 2)));
    assert_eq!(img.translate_rect(r2, 0, 0), Some(Rect::new(1, 1, 4, 4)));
    assert_eq!(img.translate_rect(r1, 4, 4), None);
}

#[test]
fn test_fill_rect() {
    let mut img: ImageBuffer2D<Luma<u8>> = ImageBuffer2D::new(5, 5);
    let r = Rect::new(1, 1, 3, 3);
    img.fill_rect(r, &Luma::<u8>::new([255]));
    let mut it = img.enumerate_pixels();
    let mut seen = 0;
    while let Some(((x, y), &pixel)) = it.next() {
        if r.contains(x as u32, y as u32) {
            assert_eq!(pixel, Luma::<u8>::new([255]));
        } else {
            assert_eq!(pixel, Luma::<u8>::new([0]));
        }
        seen += 1;
    }
    assert_eq!(seen, 25);
}

#[test]
fn test_blit_rect() {
    let mut img1 = ImageBuffer2D::<Luma<u8>>::new(64, 64);
    let mut img2 = ImageBuffer2D::<Luma<u8>>::new(64, 64);
    let r = Rect::new(16, 16, 32, 32);
    img2.fill_rect(r, &Luma::<u8>::new([255]));
    assert!(img1.blit_rect(r, r, &img2).is_ok());
    assert_eq!(img1, img2);
}

#[test]
fn test_sub_image() {
    let img = ImageBuffer2D::generate(5, 5, |(x, y)| {
        Luma::from(if y == 0 || y == 4 {
            0u8
        } else {
            (2 * x + 3 * y) as u8
        })
    });
    let sub_img = img.sub_image(Rect::new(1, 1, 3, 3));

    let mut i = 0;
    let mut it = sub_img.enumerate_pixels();
    while let Some(((y, x), p)) = it.next() {
        assert_eq!(&Luma::new([(2 * (x + 1) + 3 * (y + 1)) as u8]), p);
        i += 1;
    }
    assert_eq!(i, 9);
}

#[test]
fn test_sub_image_mut() {
    let mut img = ImageBuffer2D::<Luma<u8>>::new(5, 5);
    {
        let mut sub_img = img.sub_image_mut(Rect::new(1, 1, 3, 3));
        let mut pixels = sub_img.enumerate_pixels_mut();
        while let Some(((y, x), p)) = pixels.next() {
            p.data[0] = (2 * (x + 1) + 3 * (y + 1)) as u8;
        }
    }

    inner_block_written(&img);
}

#[test]
fn test_put_pixel() {
    let mut img = ImageBuffer2D::<Luma<u8>>::new(5, 5);
    {
        for y in 1..4 {
            for x in 1..4 {
                img.put_pixel(x, y, Luma::new([(2 * x + 3 * y) as u8]));
            }
        }
    }

    inner_block_written(&img);
}

#[test]
fn test_get_pixel_mut() {
    let mut img = ImageBuffer2D::<Luma<u8>>::new(5, 5);
    {
        for y in 1..4 {
            for x in 1..4 {
                *img.get_pixel_mut(x, y) = Luma::new([(2 * x + 3 * y) as u8]);
            }
        }
    }

    inner_block_written(&img);
}

#[test]
fn test_index_mut() {
    let mut img = ImageBuffer2D::<Luma<u8>>::new(5, 5);
    {
        for x in 1..4 {
            for y in 1..4 {
                img.get_pixel_mut(x, y).channels_mut()[0] = (2 * x + 3 * y) as u8;
                assert_eq!(img[(x, y)], Luma::new([(2 * x + 3 * y) as u8]));
            }
        }
    }

    inner_block_written(&img);
}

#[test]
fn test_generate() {
    let img = ImageBuffer2D::generate(1280, 720, |(x, y)| Luma::new([5 * x + 13 * y]));
    let mut it = img.enumerate_pixels();
    let mut seen = 0usize;
    while let Some(((y, x), pix)) = it.next() {
        assert_eq!(pix, &Luma::new([(5 * x + 13 * y) as u32]));
        seen += 1;
    }
    assert_eq!(seen, 1280 * 720);
}
