pub mod iou;
